//! The find action: its expressions, their check-up into cached typed
//! forms, and their evaluation against the execution context.

use vstd::prelude::*;
use crate::error::{AuditError, ends_with};
use crate::operation::{Operation, args_fit, parse_operation, operation_of, result_type_of};
use crate::reference::{ids_view, parse_reference, reference_error_detail, reference_of};
use crate::text::{bool_of, i64_of, lower_of, lowercase, parse_bool, parse_i64, str_equal, strip_underscores};
use crate::value::{Reference, Value, ValueModel, ValueType, part_type, value_views};
use crate::operation::{eval_values, evaluate};
use crate::context::ActiveRuleContext;
use crate::http::{SingleSendModel, deref_of, sends_view};

verus! {

/// How the Booleans of a `Several` final result are combined.
#[derive(Clone, Copy, Debug, PartialEq, Eq, Structural)]
pub enum LookFor {
    Any,
    All,
}

/// The reduction that a lower-cased `look_for` names.
pub open spec fn look_for_of(folded: Seq<char>) -> Option<LookFor> {
    if folded == "any"@ {
        Some(LookFor::Any)
    } else if folded == "all"@ {
        Some(LookFor::All)
    } else {
        None
    }
}

/// The reduction that an already lower-cased `look_for` names.
pub fn look_for_from_folded(s: &str) -> (r: Option<LookFor>)
    ensures
        r == look_for_of(s@),
{
    if str_equal(s, "any") {
        Some(LookFor::Any)
    } else if str_equal(s, "all") {
        Some(LookFor::All)
    } else {
        None
    }
}

/// One argument of an expression: its declared type, its raw text, and,
/// after check-up, its typed value.
#[derive(Clone, Debug, PartialEq, Eq)]
pub struct ExpressionArg {
    pub arg_type: String,
    pub value: String,
    pub type_cache: Option<Value>,
}

/// Model of an [`ExpressionArg`].
pub struct ArgModel {
    pub arg_type: Seq<char>,
    pub value: Seq<char>,
    pub type_cache: Option<ValueModel>,
}

impl View for ExpressionArg {
    type V = ArgModel;

    open spec fn view(&self) -> ArgModel {
        ArgModel {
            arg_type: self.arg_type@,
            value: self.value@,
            type_cache: match self.type_cache {
                Some(v) => Some(v@),
                None => None,
            },
        }
    }
}

impl ExpressionArg {
    /// An argument that has not been checked yet.
    pub fn new(arg_type: &str, value: &str) -> (r: ExpressionArg)
        ensures
            r@.arg_type == arg_type@,
            r@.value == value@,
            r@.type_cache is None,
    {
        ExpressionArg { arg_type: arg_type.to_owned(), value: value.to_owned(), type_cache: None }
    }
}

/// A named operation applied to arguments.
#[derive(Clone, Debug, PartialEq, Eq)]
pub struct ExecutableExpression {
    pub name: String,
    pub operation_name: String,
    pub args: Vec<ExpressionArg>,
    pub operation_cache: Option<Operation>,
}

/// Model of an [`ExecutableExpression`].
pub struct ExpressionModel {
    pub name: Seq<char>,
    pub operation_name: Seq<char>,
    pub args: Seq<ArgModel>,
    pub operation_cache: Option<Operation>,
}

/// The models of a sequence of arguments.
pub open spec fn args_view(v: Seq<ExpressionArg>) -> Seq<ArgModel> {
    v.map_values(|a: ExpressionArg| a@)
}

impl View for ExecutableExpression {
    type V = ExpressionModel;

    open spec fn view(&self) -> ExpressionModel {
        ExpressionModel {
            name: self.name@,
            operation_name: self.operation_name@,
            args: args_view(self.args@),
            operation_cache: self.operation_cache,
        }
    }
}

impl ExecutableExpression {
    /// Runs the checked operation of this expression on dereferenced arguments.
    pub fn exec(&self, args: &Vec<Value>) -> (r: Result<Value, AuditError>)
        requires
            self.operation_cache is Some,
        ensures
            match r {
                Ok(v) => eval_values(self.operation_cache->0, value_views(args@)) == Some(v@),
                Err(e) => eval_values(self.operation_cache->0, value_views(args@)) is None
                    && e.0@ == evaluation_error(self.name@)
                    && ends_with(e.0@, self.name@),
            },
    {
        let op = match self.operation_cache {
            Some(op) => op,
            None => Operation::Len,
        };
        match evaluate(op, args) {
            Some(v) => Ok(v),
            None => Err(AuditError::with_detail("evaluation failed in ", self.name.as_str())),
        }
    }

    /// An expression that has not been checked yet.
    pub fn new(name: &str, operation_name: &str, args: Vec<ExpressionArg>) -> (r: ExecutableExpression)
        ensures
            r@.name == name@,
            r@.operation_name == operation_name@,
            r.args == args,
            r@.operation_cache is None,
    {
        ExecutableExpression {
            name: name.to_owned(),
            operation_name: operation_name.to_owned(),
            args,
            operation_cache: None,
        }
    }
}

/// A find action: how to reduce the final result, and the expressions.
#[derive(Clone, Debug, PartialEq, Eq)]
pub struct RuleFindAction {
    pub id: Option<String>,
    pub look_for: String,
    pub look_for_cache: Option<LookFor>,
    pub expressions: Vec<ExecutableExpression>,
}

/// Model of a [`RuleFindAction`].
pub struct FindModel {
    pub id: Option<Seq<char>>,
    pub look_for: Seq<char>,
    pub look_for_cache: Option<LookFor>,
    pub expressions: Seq<ExpressionModel>,
}

/// The models of a sequence of expressions.
pub open spec fn exprs_view(v: Seq<ExecutableExpression>) -> Seq<ExpressionModel> {
    v.map_values(|x: ExecutableExpression| x@)
}

impl View for RuleFindAction {
    type V = FindModel;

    open spec fn view(&self) -> FindModel {
        FindModel {
            id: match self.id {
                Some(s) => Some(s@),
                None => None,
            },
            look_for: self.look_for@,
            look_for_cache: self.look_for_cache,
            expressions: exprs_view(self.expressions@),
        }
    }
}

/// The names declared so far in a find action, with the types of their results.
pub open spec fn decls_view(v: Seq<(String, ValueType)>) -> Seq<(Seq<char>, ValueType)> {
    v.map_values(|p: (String, ValueType)| (p.0@, p.1))
}

/// The type of the first declaration named `name`.
pub open spec fn lookup_decl(d: Seq<(Seq<char>, ValueType)>, name: Seq<char>) -> Option<ValueType>
    decreases d.len(),
{
    if d.len() == 0 {
        None
    } else if d[0].0 == name {
        Some(d[0].1)
    } else {
        lookup_decl(d.subrange(1, d.len() as int), name)
    }
}

/// The typed value of an argument, given the earlier declarations, the table
/// of symbolic send ids and the number of send results in reach.
pub open spec fn arg_value_of(
    a: ArgModel,
    d: Seq<(Seq<char>, ValueType)>,
    ids: Option<Seq<(String, usize)>>,
    results_count: usize,
) -> Option<ValueModel> {
    if a.arg_type == "string"@ {
        Some(ValueModel::String(a.value))
    } else if a.arg_type == "int"@ {
        match i64_of(a.value) {
            Some(i) => Some(ValueModel::Integer(i)),
            None => None,
        }
    } else if a.arg_type == "bool"@ {
        match bool_of(a.value) {
            Some(b) => Some(ValueModel::Boolean(b)),
            None => None,
        }
    } else if a.arg_type == "reference"@ {
        match reference_of(a.value, ids, results_count) {
            Some(r) => Some(ValueModel::Reference(r)),
            None => None,
        }
    } else if a.arg_type == "variable"@ {
        match lookup_decl(d, a.value) {
            Some(t) => Some(ValueModel::Variable(a.value, t)),
            None => None,
        }
    } else {
        None
    }
}

/// The type of a checked argument.
pub open spec fn arg_type_of(v: ValueModel) -> ValueType {
    match v {
        ValueModel::Integer(_) => ValueType::Integer,
        ValueModel::Boolean(_) => ValueType::Boolean,
        ValueModel::Reference(r) => part_type(r.message_part),
        ValueModel::Variable(_, t) => t,
        _ => ValueType::String,
    }
}

/// The checked form of one expression.
pub struct CompiledExpr {
    pub op: Operation,
    pub args: Seq<ValueModel>,
}

/// The checked form of an expression: its name is new, its operation is
/// known, each argument has a typed value, and the operation accepts their types.
pub open spec fn compile_expr(
    x: ExpressionModel,
    d: Seq<(Seq<char>, ValueType)>,
    ids: Option<Seq<(String, usize)>>,
    results_count: usize,
) -> Option<CompiledExpr> {
    if lookup_decl(d, x.name) is Some {
        None
    } else {
        match operation_of(strip_underscores(lower_of(x.operation_name))) {
            None => None,
            Some(op) => if forall|j: int|
                0 <= j < x.args.len() ==> (#[trigger] arg_value_of(x.args[j], d, ids, results_count)) is Some {
                let vals = Seq::new(
                    x.args.len(),
                    |j: int| arg_value_of(x.args[j], d, ids, results_count)->0,
                );
                if args_fit(op, vals.map_values(|v: ValueModel| arg_type_of(v))) {
                    Some(CompiledExpr { op, args: vals })
                } else {
                    None
                }
            } else {
                None
            },
        }
    }
}

/// The declarations that checked expressions make.
pub open spec fn declared_of(e: Seq<ExpressionModel>, c: Seq<CompiledExpr>) -> Seq<(Seq<char>, ValueType)> {
    Seq::new(c.len(), |i: int| (e[i].name, result_type_of(c[i].op)))
}

/// The checked forms of a sequence of expressions, each checked against the
/// ones before it.
pub open spec fn compile_exprs(
    e: Seq<ExpressionModel>,
    ids: Option<Seq<(String, usize)>>,
    results_count: usize,
) -> Option<Seq<CompiledExpr>>
    decreases e.len(),
{
    if e.len() == 0 {
        Some(Seq::<CompiledExpr>::empty())
    } else {
        match compile_exprs(e.drop_last(), ids, results_count) {
            None => None,
            Some(c) => match compile_expr(e.last(), declared_of(e.drop_last(), c), ids, results_count) {
                Some(x) => Some(c.push(x)),
                None => None,
            },
        }
    }
}

/// The checked form of a find action: a known reduction, and expressions
/// that check, the last of which gives Booleans.
pub open spec fn find_compiled(
    f: FindModel,
    ids: Option<Seq<(String, usize)>>,
    results_count: usize,
) -> Option<(LookFor, Seq<CompiledExpr>)> {
    match look_for_of(lower_of(f.look_for)) {
        None => None,
        Some(lf) => match compile_exprs(f.expressions, ids, results_count) {
            None => None,
            Some(c) => if c.len() > 0 && result_type_of(c.last().op) == ValueType::Boolean {
                Some((lf, c))
            } else {
                None
            },
        },
    }
}

/// An expression with its caches filled from its checked form.
pub open spec fn expr_with_cache(x: ExpressionModel, c: CompiledExpr) -> ExpressionModel {
    ExpressionModel {
        name: x.name,
        operation_name: x.operation_name,
        args: Seq::new(
            x.args.len(),
            |j: int|
                ArgModel {
                    arg_type: x.args[j].arg_type,
                    value: x.args[j].value,
                    type_cache: Some(c.args[j]),
                },
        ),
        operation_cache: Some(c.op),
    }
}

/// A find action with its caches filled from its checked form.
pub open spec fn find_with_cache(f: FindModel, lf: LookFor, c: Seq<CompiledExpr>) -> FindModel {
    FindModel {
        id: f.id,
        look_for: f.look_for,
        look_for_cache: Some(lf),
        expressions: Seq::new(f.expressions.len(), |i: int| expr_with_cache(f.expressions[i], c[i])),
    }
}

/// What the message of a rejected argument ends with: the reference's
/// detail, the declared type where it is unknown, else the raw value.
pub open spec fn arg_error_detail(a: ArgModel, ids: Option<Seq<(String, usize)>>) -> Seq<char> {
    if a.arg_type == "string"@ || a.arg_type == "int"@ || a.arg_type == "bool"@ {
        a.value
    } else if a.arg_type == "reference"@ {
        reference_error_detail(a.value, ids)
    } else if a.arg_type == "variable"@ {
        a.value
    } else {
        a.arg_type
    }
}

/// The detail of the first argument that does not check, if any.
pub open spec fn args_error(
    args: Seq<ArgModel>,
    d: Seq<(Seq<char>, ValueType)>,
    ids: Option<Seq<(String, usize)>>,
    results_count: usize,
) -> Option<Seq<char>>
    decreases args.len(),
{
    if args.len() == 0 {
        None
    } else {
        match args_error(args.drop_last(), d, ids, results_count) {
            Some(x) => Some(x),
            None => if arg_value_of(args.last(), d, ids, results_count) is None {
                Some(arg_error_detail(args.last(), ids))
            } else {
                None
            },
        }
    }
}

/// What the message of a rejected expression ends with: its name where it
/// is declared twice or its arguments do not fit, its operation's name where
/// that is unknown, else the detail of its first bad argument.
pub open spec fn expr_error_detail(
    x: ExpressionModel,
    d: Seq<(Seq<char>, ValueType)>,
    ids: Option<Seq<(String, usize)>>,
    results_count: usize,
) -> Seq<char> {
    if lookup_decl(d, x.name) is Some {
        x.name
    } else if operation_of(strip_underscores(lower_of(x.operation_name))) is None {
        x.operation_name
    } else {
        match args_error(x.args, d, ids, results_count) {
            Some(v) => v,
            None => x.name,
        }
    }
}

/// The detail of the first expression that does not check, if any.
pub open spec fn exprs_error(e: Seq<ExpressionModel>, ids: Option<Seq<(String, usize)>>, results_count: usize) -> Option<Seq<char>>
    decreases e.len(),
{
    if e.len() == 0 {
        None
    } else {
        match exprs_error(e.drop_last(), ids, results_count) {
            Some(x) => Some(x),
            None => match compile_exprs(e.drop_last(), ids, results_count) {
                Some(c) => if compile_expr(e.last(), declared_of(e.drop_last(), c), ids, results_count) is None {
                    Some(expr_error_detail(e.last(), declared_of(e.drop_last(), c), ids, results_count))
                } else {
                    None
                },
                None => None,
            },
        }
    }
}

/// What the message of a rejected find action ends with: its `look_for`
/// where that is unknown or there are no expressions, the detail of the first
/// expression that does not check, else the name of the last expression,
/// whose result is not Boolean.
pub open spec fn find_error_detail(f: FindModel, ids: Option<Seq<(String, usize)>>, results_count: usize) -> Seq<char> {
    if look_for_of(lower_of(f.look_for)) is None || f.expressions.len() == 0 {
        f.look_for
    } else {
        match exprs_error(f.expressions, ids, results_count) {
            Some(v) => v,
            None => f.expressions.last().name,
        }
    }
}

proof fn lemma_args_error_prefix(args: Seq<ArgModel>, d: Seq<(Seq<char>, ValueType)>, ids: Option<Seq<(String, usize)>>, results_count: usize, k: int)
    requires
        0 <= k <= args.len(),
        args_error(args.subrange(0, k), d, ids, results_count) is Some,
    ensures
        args_error(args, d, ids, results_count) == args_error(args.subrange(0, k), d, ids, results_count),
    decreases args.len() - k,
{
    if k < args.len() {
        assert(args.subrange(0, k + 1).drop_last() =~= args.subrange(0, k));
        lemma_args_error_prefix(args, d, ids, results_count, k + 1);
    } else {
        assert(args.subrange(0, k) =~= args);
    }
}

proof fn lemma_exprs_error_prefix(e: Seq<ExpressionModel>, ids: Option<Seq<(String, usize)>>, results_count: usize, k: int)
    requires
        0 <= k <= e.len(),
        exprs_error(e.subrange(0, k), ids, results_count) is Some,
    ensures
        exprs_error(e, ids, results_count) == exprs_error(e.subrange(0, k), ids, results_count),
    decreases e.len() - k,
{
    if k < e.len() {
        assert(e.subrange(0, k + 1).drop_last() =~= e.subrange(0, k));
        lemma_exprs_error_prefix(e, ids, results_count, k + 1);
    } else {
        assert(e.subrange(0, k) =~= e);
    }
}

/// Finds the type of the declaration named `name`.
fn find_decl(d: &Vec<(String, ValueType)>, name: &str) -> (r: Option<ValueType>)
    ensures
        r == lookup_decl(decls_view(d@), name@),
{
    let ghost dv = decls_view(d@);
    let mut i: usize = 0;
    assert(dv.subrange(0, dv.len() as int) =~= dv);
    while i < d.len()
        invariant
            i <= d@.len(),
            dv == decls_view(d@),
            lookup_decl(dv, name@) == lookup_decl(dv.subrange(i as int, dv.len() as int), name@),
        decreases d@.len() - i,
    {
        let ghost rest = dv.subrange(i as int, dv.len() as int);
        assert(rest[0] == (d@[i as int].0@, d@[i as int].1));
        if str_equal(d[i].0.as_str(), name) {
            return Some(d[i].1);
        }
        assert(rest.subrange(1, rest.len() as int) =~= dv.subrange(i as int + 1, dv.len() as int));
        i = i + 1;
    }
    None
}

/// The type of a checked argument.
fn arg_type(v: &Value) -> (r: ValueType)
    ensures
        r == arg_type_of(v@),
{
    match v {
        Value::Integer(_) => ValueType::Integer,
        Value::Boolean(_) => ValueType::Boolean,
        Value::Reference(r) => r.value_type(),
        Value::Variable(_, t) => *t,
        _ => ValueType::String,
    }
}

/// Checks one argument and gives its typed value.
pub fn check_arg(
    a: &ExpressionArg,
    d: &Vec<(String, ValueType)>,
    ids: Option<&Vec<(String, usize)>>,
    results_count: usize,
) -> (r: Result<Value, AuditError>)
    ensures
        match r {
            Ok(v) => arg_value_of(a@, decls_view(d@), ids_view(ids), results_count) == Some(v@),
            Err(e) => arg_value_of(a@, decls_view(d@), ids_view(ids), results_count) is None
                && ends_with(e.0@, arg_error_detail(a@, ids_view(ids))),
        },
{
    let t = a.arg_type.as_str();
    let raw = a.value.as_str();
    if str_equal(t, "string") {
        Ok(Value::String(a.value.clone()))
    } else if str_equal(t, "int") {
        match parse_i64(raw) {
            Some(i) => Ok(Value::Integer(i)),
            None => Err(AuditError::with_detail("could not parse argument as i64: ", raw)),
        }
    } else if str_equal(t, "bool") {
        match parse_bool(raw) {
            Some(b) => Ok(Value::Boolean(b)),
            None => Err(AuditError::with_detail("could not parse argument as bool: ", raw)),
        }
    } else if str_equal(t, "reference") {
        match parse_reference(raw, ids, results_count) {
            Ok(x) => Ok(Value::Reference(x)),
            Err(e) => Err(e),
        }
    } else if str_equal(t, "variable") {
        match find_decl(d, raw) {
            Some(vt) => Ok(Value::Variable(a.value.clone(), vt)),
            None => Err(AuditError::with_detail("variable used before declaration: ", raw)),
        }
    } else {
        Err(AuditError::with_detail("unknown argument type: ", t))
    }
}

/// Checks one expression against the declarations before it and gives it
/// with its caches filled.
pub fn check_expression(
    x: &ExecutableExpression,
    d: &Vec<(String, ValueType)>,
    ids: Option<&Vec<(String, usize)>>,
    results_count: usize,
) -> (r: Result<ExecutableExpression, AuditError>)
    ensures
        match r {
            Ok(y) => compile_expr(x@, decls_view(d@), ids_view(ids), results_count) is Some
                && y@ == expr_with_cache(x@, compile_expr(x@, decls_view(d@), ids_view(ids), results_count)->0),
            Err(e) => compile_expr(x@, decls_view(d@), ids_view(ids), results_count) is None
                && ends_with(e.0@, expr_error_detail(x@, decls_view(d@), ids_view(ids), results_count)),
        },
{
    let ghost dv = decls_view(d@);
    let ghost xv = x@;
    if find_decl(d, x.name.as_str()).is_some() {
        return Err(AuditError::with_detail("expression name declared twice: ", x.name.as_str()));
    }
    let op = match parse_operation(x.operation_name.as_str()) {
        Some(op) => op,
        None => {
            return Err(AuditError::with_detail("unknown operation: ", x.operation_name.as_str()));
        },
    };
    let n = x.args.len();
    let mut types: Vec<ValueType> = Vec::new();
    let mut args: Vec<ExpressionArg> = Vec::new();
    let mut i: usize = 0;
    while i < n
        invariant
            n == x.args@.len(),
            xv == x@,
            dv == decls_view(d@),
            i <= n,
            types@.len() == i,
            args@.len() == i,
            forall|j: int| 0 <= j < i ==> (#[trigger] arg_value_of(xv.args[j], dv, ids_view(ids), results_count)) is Some,
            args_error(xv.args.subrange(0, i as int), dv, ids_view(ids), results_count) is None,
            lookup_decl(dv, xv.name) is None,
            operation_of(strip_underscores(lower_of(xv.operation_name))) is Some,
            forall|j: int| 0 <= j < i ==> #[trigger] types@[j] == arg_type_of(arg_value_of(xv.args[j], dv, ids_view(ids), results_count)->0),
            forall|j: int| 0 <= j < i ==> #[trigger] args@[j]@ == (ArgModel {
                arg_type: xv.args[j].arg_type,
                value: xv.args[j].value,
                type_cache: arg_value_of(xv.args[j], dv, ids_view(ids), results_count),
            }),
        decreases n - i,
    {
        let a = &x.args[i];
        assert(xv.args[i as int] == a@);
        let ghost an = xv.args.subrange(0, i as int + 1);
        assert(an.drop_last() =~= xv.args.subrange(0, i as int));
        assert(an.last() == a@);
        let v = match check_arg(a, d, ids, results_count) {
            Ok(v) => v,
            Err(e) => {
                proof { lemma_args_error_prefix(xv.args, dv, ids_view(ids), results_count, i as int + 1); }
                return Err(e);
            },
        };
        types.push(arg_type(&v));
        args.push(ExpressionArg { arg_type: a.arg_type.clone(), value: a.value.clone(), type_cache: Some(v) });
        i = i + 1;
    }
    assert(xv.args.subrange(0, n as int) =~= xv.args);
    let ghost vals = Seq::new(xv.args.len(), |j: int| arg_value_of(xv.args[j], dv, ids_view(ids), results_count)->0);
    assert(types@ =~= vals.map_values(|v: ValueModel| arg_type_of(v)));
    if !op.check_args(&types) {
        return Err(AuditError::with_detail("arguments do not fit the operation of ", x.name.as_str()));
    }
    let y = ExecutableExpression {
        name: x.name.clone(),
        operation_name: x.operation_name.clone(),
        args,
        operation_cache: Some(op),
    };
    assert(y@.args =~= expr_with_cache(xv, CompiledExpr { op, args: vals }).args);
    Ok(y)
}

impl RuleFindAction {
    /// A find action that has not been checked yet.
    pub fn new(id: Option<String>, look_for: &str, expressions: Vec<ExecutableExpression>) -> (r: RuleFindAction)
        ensures
            r.id == id,
            r@.look_for == look_for@,
            r.look_for_cache is None,
            r.expressions == expressions,
    {
        RuleFindAction { id, look_for: look_for.to_owned(), look_for_cache: None, expressions }
    }

    /// Validates the action and fills its caches. `ids` maps the symbolic
    /// ids of the send actions declared before it to their indices;
    /// `results_count` is the number of send results in reach, the captured
    /// pair at index 0 included. On an error nothing changes.
    pub fn check_up(&mut self, ids: Option<&Vec<(String, usize)>>, results_count: usize) -> (r: Result<(), AuditError>)
        ensures
            match r {
                Ok(()) => match find_compiled(old(self)@, ids_view(ids), results_count) {
                    Some((lf, c)) => final(self)@ == find_with_cache(old(self)@, lf, c),
                    None => false,
                },
                Err(e) => find_compiled(old(self)@, ids_view(ids), results_count) is None
                    && *final(self) == *old(self)
                    && ends_with(e.0@, find_error_detail(old(self)@, ids_view(ids), results_count)),
            },
    {
        let ghost f = self@;
        let folded = lowercase(self.look_for.as_str());
        let lf = match look_for_from_folded(folded.as_str()) {
            Some(lf) => lf,
            None => {
                return Err(AuditError::with_detail("unsupported look_for statement: ", self.look_for.as_str()));
            },
        };
        let n = self.expressions.len();
        let mut decls: Vec<(String, ValueType)> = Vec::new();
        let mut out: Vec<ExecutableExpression> = Vec::new();
        let ghost mut cs: Seq<CompiledExpr> = Seq::empty();
        let mut i: usize = 0;
        assert(f.expressions.subrange(0, 0) =~= Seq::<ExpressionModel>::empty());
        assert(decls_view(decls@) =~= declared_of(f.expressions.subrange(0, 0), cs));
        while i < n
            invariant
                n == self.expressions@.len(),
                f == self@,
                i <= n,
                compile_exprs(f.expressions.subrange(0, i as int), ids_view(ids), results_count) == Some(cs),
                cs.len() == i,
                out@.len() == i,
                decls_view(decls@) == declared_of(f.expressions.subrange(0, i as int), cs),
                forall|j: int| 0 <= j < i ==> #[trigger] out@[j]@ == expr_with_cache(f.expressions[j], cs[j]),
                exprs_error(f.expressions.subrange(0, i as int), ids_view(ids), results_count) is None,
                look_for_of(lower_of(f.look_for)) is Some,
            decreases n - i,
        {
            let x = &self.expressions[i];
            assert(f.expressions[i as int] == x@);
            let y = match check_expression(x, &decls, ids, results_count) {
                Ok(y) => y,
                Err(e) => {
                    proof {
                        let e2 = f.expressions.subrange(0, i as int + 1);
                        assert(e2.drop_last() =~= f.expressions.subrange(0, i as int));
                        assert(e2.last() == x@);
                        lemma_compile_prefix_fails(f.expressions, i as int + 1, ids_view(ids), results_count);
                        lemma_exprs_error_prefix(f.expressions, ids_view(ids), results_count, i as int + 1);
                    }
                    return Err(e);
                },
            };
            let ghost c = compile_expr(x@, decls_view(decls@), ids_view(ids), results_count)->0;
            let rt = match y.operation_cache {
                Some(op) => op.result_type(),
                None => ValueType::Boolean,
            };
            let ghost pre = f.expressions.subrange(0, i as int);
            let ghost e2 = f.expressions.subrange(0, i as int + 1);
            assert(e2.drop_last() =~= pre);
            assert(e2.last() == x@);
            assert(y@.operation_cache == Some(c.op));
            assert(rt == result_type_of(c.op));
            let ghost old_decls = decls_view(decls@);
            decls.push((x.name.clone(), rt));
            out.push(y);
            proof {
                assert(decls_view(decls@) =~= old_decls.push((x@.name, rt)));
                cs = cs.push(c);
                assert forall|j: int| 0 <= j < i implies #[trigger] declared_of(e2, cs)[j] == declared_of(pre, cs.drop_last())[j] by {
                    assert(e2[j] == pre[j]);
                }
                assert(decls_view(decls@) =~= declared_of(e2, cs));
            }
            i = i + 1;
        }
        assert(f.expressions.subrange(0, n as int) =~= f.expressions);
        assert(compile_exprs(f.expressions, ids_view(ids), results_count) == Some(cs));
        if n == 0 {
            return Err(AuditError::with_detail("find action has no expressions: ", self.look_for.as_str()));
        }
        assert(out@[n - 1]@ == expr_with_cache(f.expressions[n - 1], cs[n - 1]));
        assert(cs.last() == cs[n - 1]);
        let last_type = match out[n - 1].operation_cache {
            Some(op) => op.result_type(),
            None => ValueType::Boolean,
        };
        if last_type != ValueType::Boolean {
            return Err(AuditError::with_detail("the last expression must give Booleans: ", out[n - 1].name.as_str()));
        }
        self.look_for_cache = Some(lf);
        self.expressions = out;
        assert(self@.expressions =~= find_with_cache(f, lf, cs).expressions);
        Ok(())
    }
}

proof fn lemma_compile_prefix_fails(e: Seq<ExpressionModel>, k: int, ids: Option<Seq<(String, usize)>>, results_count: usize)
    requires
        0 <= k <= e.len(),
        compile_exprs(e.subrange(0, k), ids, results_count) is None,
    ensures
        compile_exprs(e, ids, results_count) is None,
    decreases e.len() - k,
{
    if k < e.len() {
        let e2 = e.subrange(0, k + 1);
        assert(e2.drop_last() =~= e.subrange(0, k));
        lemma_compile_prefix_fails(e, k + 1, ids, results_count);
    } else {
        assert(e.subrange(0, k) =~= e);
    }
}

/// Whether every cache of the expressions is filled.
pub open spec fn exprs_checked(e: Seq<ExpressionModel>) -> bool {
    forall|i: int| 0 <= i < e.len() ==> {
        &&& (#[trigger] e[i]).operation_cache is Some
        &&& forall|j: int| 0 <= j < e[i].args.len() ==> (#[trigger] e[i].args[j]).type_cache is Some
    }
}

/// The result of the first expression named `n`.
pub open spec fn lookup_result(names: Seq<Seq<char>>, results: Seq<ValueModel>, n: Seq<char>) -> Option<ValueModel>
    decreases names.len(),
{
    if names.len() == 0 || results.len() == 0 {
        None
    } else if names[0] == n {
        Some(results[0])
    } else {
        lookup_result(names.subrange(1, names.len() as int), results.subrange(1, results.len() as int), n)
    }
}

/// The names of a sequence of expressions.
pub open spec fn names_of(e: Seq<ExpressionModel>) -> Seq<Seq<char>> {
    e.map_values(|x: ExpressionModel| x.name)
}

/// What an argument stands for when its expression runs: a reference reads
/// the send results, a variable the result of the earlier expression of that
/// name, and a literal itself.
pub open spec fn runtime_arg(
    v: ValueModel,
    names: Seq<Seq<char>>,
    results: Seq<ValueModel>,
    sends: Seq<Seq<SingleSendModel>>,
) -> Option<ValueModel> {
    match v {
        ValueModel::Reference(r) => deref_of(r, sends),
        ValueModel::Variable(n, _) => lookup_result(names, results, n),
        _ => Some(v),
    }
}

/// What one checked expression gives, after the expressions `prev` gave `results`.
pub open spec fn run_expr(
    x: ExpressionModel,
    prev: Seq<ExpressionModel>,
    results: Seq<ValueModel>,
    sends: Seq<Seq<SingleSendModel>>,
) -> Option<ValueModel> {
    let a = Seq::new(
        x.args.len(),
        |j: int| runtime_arg(x.args[j].type_cache->0, names_of(prev), results, sends),
    );
    if forall|j: int| 0 <= j < a.len() ==> (#[trigger] a[j]) is Some {
        eval_values(x.operation_cache->0, a.map_values(|o: Option<ValueModel>| o->0))
    } else {
        None
    }
}

/// The results of checked expressions, run in declaration order.
pub open spec fn run_exprs(e: Seq<ExpressionModel>, sends: Seq<Seq<SingleSendModel>>) -> Option<Seq<ValueModel>>
    decreases e.len(),
{
    if e.len() == 0 {
        Some(Seq::<ValueModel>::empty())
    } else {
        match run_exprs(e.drop_last(), sends) {
            None => None,
            Some(rs) => match run_expr(e.last(), e.drop_last(), rs, sends) {
                Some(v) => Some(rs.push(v)),
                None => None,
            },
        }
    }
}

/// The verdict that a final result gives: a Boolean is itself; a `Several`
/// of Booleans gives whether any (`Any`) or all (`All`) of them hold.
pub open spec fn verdict_of(lf: LookFor, v: ValueModel) -> Option<bool> {
    match v {
        ValueModel::Boolean(b) => Some(b),
        ValueModel::Several(xs) => if forall|i: int| 0 <= i < xs.len() ==> (#[trigger] xs[i]) is Boolean {
            Some(
                match lf {
                    LookFor::Any => exists|i: int| 0 <= i < xs.len() && (#[trigger] xs[i])->Boolean_0,
                    LookFor::All => forall|i: int| 0 <= i < xs.len() ==> (#[trigger] xs[i])->Boolean_0,
                },
            )
        } else {
            None
        },
        _ => None,
    }
}

/// What a checked find action concludes on the send results.
pub open spec fn find_outcome(f: FindModel, sends: Seq<Seq<SingleSendModel>>) -> Option<bool> {
    match run_exprs(f.expressions, sends) {
        Some(rs) => if rs.len() > 0 {
            verdict_of(f.look_for_cache->0, rs.last())
        } else {
            None
        },
        None => None,
    }
}

/// The message of an operation that fails in the expression named `name`.
pub open spec fn evaluation_error(name: Seq<char>) -> Seq<char> {
    "evaluation failed in "@ + name
}

/// Whether expression `x` has all its arguments but its operation fails on them.
pub open spec fn fails_in_operation_at(
    x: ExpressionModel,
    prev: Seq<ExpressionModel>,
    results: Seq<ValueModel>,
    sends: Seq<Seq<SingleSendModel>>,
) -> bool {
    let a = Seq::new(
        x.args.len(),
        |j: int| runtime_arg(x.args[j].type_cache->0, names_of(prev), results, sends),
    );
    (forall|j: int| 0 <= j < a.len() ==> (#[trigger] a[j]) is Some) && run_expr(x, prev, results, sends) is None
}

/// Whether a run stops because the operation of the expression where it
/// stops fails, rather than an argument that cannot be read.
pub open spec fn fails_in_operation(e: Seq<ExpressionModel>, sends: Seq<Seq<SingleSendModel>>) -> bool
    decreases e.len(),
{
    if e.len() == 0 {
        false
    } else {
        match run_exprs(e.drop_last(), sends) {
            None => fails_in_operation(e.drop_last(), sends),
            Some(rs) => fails_in_operation_at(e.last(), e.drop_last(), rs, sends),
        }
    }
}

/// The name of the expression where a run stops: the first whose run fails,
/// else the last, whose result gives no verdict; empty without expressions.
pub open spec fn run_error_name(e: Seq<ExpressionModel>, sends: Seq<Seq<SingleSendModel>>) -> Seq<char>
    decreases e.len(),
{
    if e.len() == 0 {
        Seq::<char>::empty()
    } else if run_exprs(e.drop_last(), sends) is None {
        run_error_name(e.drop_last(), sends)
    } else {
        e.last().name
    }
}

proof fn lemma_run_error_name(e: Seq<ExpressionModel>, sends: Seq<Seq<SingleSendModel>>, i: int, k: int)
    requires
        0 <= i < k <= e.len(),
        run_exprs(e.subrange(0, i), sends) is Some,
        run_exprs(e.subrange(0, i + 1), sends) is None,
    ensures
        run_error_name(e.subrange(0, k), sends) == e[i].name,
        fails_in_operation(e.subrange(0, k), sends) == fails_in_operation_at(
            e[i],
            e.subrange(0, i),
            run_exprs(e.subrange(0, i), sends)->0,
            sends,
        ),
    decreases k - i,
{
    let p = e.subrange(0, k);
    assert(p.drop_last() =~= e.subrange(0, k - 1));
    if k == i + 1 {
        assert(p.last() == e[i]);
    } else {
        lemma_run_error_name(e, sends, i, k - 1);
        assert(e.subrange(0, k - 1).subrange(0, i + 1) =~= e.subrange(0, i + 1));
        lemma_run_prefix_fails(e.subrange(0, k - 1), i + 1, sends);
    }
}

/// Reduces a final result to a verdict.
pub fn verdict(lf: LookFor, v: &Value) -> (r: Option<bool>)
    ensures
        r == verdict_of(lf, v@),
{
    match v {
        Value::Boolean(b) => Some(*b),
        Value::Several(xs) => {
            let ghost xv = crate::value::scalar_views(xs@);
            let mut any = false;
            let mut all = true;
            let mut i: usize = 0;
            while i < xs.len()
                invariant
                    i <= xs@.len(),
                    xv == crate::value::scalar_views(xs@),
                    v@ == ValueModel::Several(xv),
                    forall|j: int| 0 <= j < i ==> (#[trigger] xv[j]) is Boolean,
                    any == exists|j: int| 0 <= j < i && (#[trigger] xv[j])->Boolean_0,
                    all == forall|j: int| 0 <= j < i ==> (#[trigger] xv[j])->Boolean_0,
                decreases xs@.len() - i,
            {
                assert(xv[i as int] == xs@[i as int]@);
                match &xs[i] {
                    crate::value::Scalar::Boolean(b) => {
                        proof {
                            if *b {
                                assert(xv[i as int]->Boolean_0);
                            }
                            if !*b {
                                assert(!xv[i as int]->Boolean_0);
                            }
                        }
                        any = any || *b;
                        all = all && *b;
                    },
                    _ => {
                        assert(!(xv[i as int] is Boolean));
                        assert(v@ == ValueModel::Several(xv));
                        assert(!(forall|j: int| 0 <= j < xv.len() ==> (#[trigger] xv[j]) is Boolean));
                        return None;
                    },
                }
                i = i + 1;
            }
            match lf {
                LookFor::Any => Some(any),
                LookFor::All => Some(all),
            }
        },
        _ => None,
    }
}

/// Finds the result of the first expression named `n`.
fn find_result(names: &Vec<String>, results: &Vec<Value>, n: &str) -> (r: Option<Value>)
    requires
        names@.len() == results@.len(),
    ensures
        match r {
            Some(v) => lookup_result(names@.map_values(|s: String| s@), value_views(results@), n@) == Some(v@),
            None => lookup_result(names@.map_values(|s: String| s@), value_views(results@), n@) is None,
        },
{
    let ghost nv = names@.map_values(|s: String| s@);
    let ghost rv = value_views(results@);
    let mut i: usize = 0;
    assert(nv.subrange(0, nv.len() as int) =~= nv);
    assert(rv.subrange(0, rv.len() as int) =~= rv);
    while i < names.len()
        invariant
            i <= names@.len(),
            names@.len() == results@.len(),
            nv == names@.map_values(|s: String| s@),
            rv == value_views(results@),
            lookup_result(nv, rv, n@) == lookup_result(
                nv.subrange(i as int, nv.len() as int),
                rv.subrange(i as int, rv.len() as int),
                n@,
            ),
        decreases names@.len() - i,
    {
        let ghost ns = nv.subrange(i as int, nv.len() as int);
        let ghost rs = rv.subrange(i as int, rv.len() as int);
        assert(ns[0] == names@[i as int]@);
        assert(rs[0] == results@[i as int]@);
        if str_equal(names[i].as_str(), n) {
            return Some(results[i].copy());
        }
        assert(ns.subrange(1, ns.len() as int) =~= nv.subrange(i as int + 1, nv.len() as int));
        assert(rs.subrange(1, rs.len() as int) =~= rv.subrange(i as int + 1, rv.len() as int));
        i = i + 1;
    }
    None
}

impl RuleFindAction {
    /// The symbolic id of this action, if it has one.
    pub fn get_id(&self) -> (r: Option<String>)
        ensures
            match r {
                Some(s) => self.id is Some && s@ == self.id->0@,
                None => self.id is None,
            },
    {
        match &self.id {
            Some(s) => Some(s.clone()),
            None => None,
        }
    }

    /// Runs the expressions in declaration order on the send results of
    /// `ctx` and records the verdict. On an error nothing is recorded.
    pub fn exec(&self, ctx: &mut ActiveRuleContext) -> (r: Result<(), AuditError>)
        requires
            self.look_for_cache is Some,
            exprs_checked(self@.expressions),
        ensures
            match r {
                Ok(()) => match find_outcome(self@, sends_view(old(ctx).send_results@)) {
                    Some(b) => final(ctx).find_results@ == old(ctx).find_results@.push(b),
                    None => false,
                },
                Err(e) => find_outcome(self@, sends_view(old(ctx).send_results@)) is None
                    && final(ctx).find_results == old(ctx).find_results
                    && ends_with(e.0@, run_error_name(self@.expressions, sends_view(old(ctx).send_results@)))
                    && (fails_in_operation(self@.expressions, sends_view(old(ctx).send_results@))
                        ==> e.0@ == evaluation_error(run_error_name(self@.expressions, sends_view(old(ctx).send_results@)))),
            },
            final(ctx).rule_id == old(ctx).rule_id,
            final(ctx).get_provenance == old(ctx).get_provenance,
            final(ctx).pair == old(ctx).pair,
            final(ctx).watch_results == old(ctx).watch_results,
            final(ctx).watch_succeeded_for_change == old(ctx).watch_succeeded_for_change,
            final(ctx).change_results == old(ctx).change_results,
            final(ctx).send_results == old(ctx).send_results,
            final(ctx).get_result == old(ctx).get_result,
    {
        let ghost f = self@;
        let ghost sends = sends_view(ctx.send_results@);
        let n = self.expressions.len();
        let mut names: Vec<String> = Vec::new();
        let mut results: Vec<Value> = Vec::new();
        let mut i: usize = 0;
        while i < n
            invariant
                n == self.expressions@.len(),
                f == self@,
                exprs_checked(f.expressions),
                sends == sends_view(ctx.send_results@),
                *ctx == *old(ctx),
                i <= n,
                names@.len() == i,
                results@.len() == i,
                names@.map_values(|s: String| s@) == names_of(f.expressions.subrange(0, i as int)),
                run_exprs(f.expressions.subrange(0, i as int), sends) == Some(value_views(results@)),
            decreases n - i,
        {
            let x = &self.expressions[i];
            assert(f.expressions[i as int] == x@);
            let ghost pre = f.expressions.subrange(0, i as int);
            let ghost e2 = f.expressions.subrange(0, i as int + 1);
            assert(e2.drop_last() =~= pre);
            assert(e2.last() == x@);
            assert(x@.operation_cache is Some);
            let ghost rv = value_views(results@);
            let ghost a = Seq::new(
                x@.args.len(),
                |j: int| runtime_arg(x@.args[j].type_cache->0, names_of(pre), rv, sends),
            );
            let m = x.args.len();
            let mut args: Vec<Value> = Vec::new();
            let mut j: usize = 0;
            while j < m
                invariant
                    m == x.args@.len(),
                    x@ == f.expressions[i as int],
                    exprs_checked(f.expressions),
                    0 <= i < f.expressions.len(),
                    a == Seq::new(
                        x@.args.len(),
                        |j: int| runtime_arg(x@.args[j].type_cache->0, names_of(pre), rv, sends),
                    ),
                    names@.map_values(|s: String| s@) == names_of(pre),
                    rv == value_views(results@),
                    names@.len() == results@.len(),
                    sends == sends_view(ctx.send_results@),
                    *ctx == *old(ctx),
                    f == self@,
                    n == f.expressions.len(),
                    pre == f.expressions.subrange(0, i as int),
                    e2 == f.expressions.subrange(0, i as int + 1),
                    e2.drop_last() == pre,
                    e2.last() == x@,
                    i < f.expressions.len(),
                    run_exprs(pre, sends) == Some(rv),
                    j <= m,
                    args@.len() == j,
                    forall|t: int| 0 <= t < j ==> (#[trigger] a[t]) == Some(args@[t]@),
                decreases m - j,
            {
                let arg = &x.args[j];
                assert(x@.args[j as int] == arg@);
                assert(f.expressions[i as int].args[j as int].type_cache is Some);
                let v = match &arg.type_cache {
                    Some(Value::Reference(refer)) => {
                        match refer.deref(&ctx.send_results) {
                            Some(v) => v,
                            None => {
                                proof {
                                    assert(!(a[j as int] is Some));
                                    assert(run_expr(x@, pre, rv, sends) is None);
                                    assert(run_exprs(e2, sends) is None);
                                    lemma_run_prefix_fails(f.expressions, i as int + 1, sends);
                                    lemma_run_error_name(f.expressions, sends, i as int, n as int);
                                    assert(f.expressions.subrange(0, n as int) =~= f.expressions);
                                }
                                return Err(AuditError::with_detail("reference points to an absent send result in ", x.name.as_str()));
                            },
                        }
                    },
                    Some(Value::Variable(name, _)) => {
                        match find_result(&names, &results, name.as_str()) {
                            Some(v) => v,
                            None => {
                                proof {
                                    assert(!(a[j as int] is Some));
                                    assert(run_expr(x@, pre, rv, sends) is None);
                                    assert(run_exprs(e2, sends) is None);
                                    lemma_run_prefix_fails(f.expressions, i as int + 1, sends);
                                    lemma_run_error_name(f.expressions, sends, i as int, n as int);
                                    assert(f.expressions.subrange(0, n as int) =~= f.expressions);
                                }
                                return Err(AuditError::with_detail("a variable has not been computed yet in ", x.name.as_str()));
                            },
                        }
                    },
                    Some(other) => other.copy(),
                    None => {
                        return Err(AuditError::with_detail("argument was not checked in ", x.name.as_str()));
                    },
                };
                args.push(v);
                j = j + 1;
            }
            assert(value_views(args@) =~= a.map_values(|o: Option<ValueModel>| o->0));
            let res = match x.exec(&args) {
                Ok(v) => v,
                Err(e) => {
                    proof { lemma_run_prefix_fails(f.expressions, i as int + 1, sends);
                                    lemma_run_error_name(f.expressions, sends, i as int, n as int);
                                    assert(f.expressions.subrange(0, n as int) =~= f.expressions); }
                    return Err(e);
                },
            };
            let ghost old_names = names@;
            let ghost old_results = results@;
            names.push(x.name.clone());
            results.push(res);
            assert(names_of(e2) =~= names_of(pre).push(x@.name));
            assert(names@.map_values(|s: String| s@) =~= old_names.map_values(|s: String| s@).push(x.name@));
            assert(names@.map_values(|s: String| s@) =~= names_of(e2));
            assert(value_views(results@) =~= value_views(old_results).push(res@));
            i = i + 1;
        }
        assert(f.expressions.subrange(0, n as int) =~= f.expressions);
        if n == 0 {
            let r = AuditError::with_detail("find action has no expressions", "");
            proof {
                reveal_strlit("");
                assert(""@ =~= Seq::<char>::empty());
                assert(run_error_name(self@.expressions, sends) =~= Seq::<char>::empty());
            }
            return Err(r);
        }
        let lf = match self.look_for_cache {
            Some(lf) => lf,
            None => LookFor::Any,
        };
        assert(value_views(results@).last() == results@[n - 1]@);
        match verdict(lf, &results[n - 1]) {
            Some(b) => {
                ctx.add_find_result(b);
                Ok(())
            },
            None => Err(AuditError::with_detail("the last expression did not give Booleans: ", self.expressions[n - 1].name.as_str())),
        }
    }
}

proof fn lemma_run_prefix_fails(e: Seq<ExpressionModel>, k: int, sends: Seq<Seq<SingleSendModel>>)
    requires
        0 <= k <= e.len(),
        run_exprs(e.subrange(0, k), sends) is None,
    ensures
        run_exprs(e, sends) is None,
    decreases e.len() - k,
{
    if k < e.len() {
        let e2 = e.subrange(0, k + 1);
        assert(e2.drop_last() =~= e.subrange(0, k));
        lemma_run_prefix_fails(e, k + 1, sends);
    } else {
        assert(e.subrange(0, k) =~= e);
    }
}

} // verus!
