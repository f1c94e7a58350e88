//! Behavior Annex code generation: turns the states, state variables and
//! transitions of a thread's Behavior Annex into a Rust state machine.

use vstd::prelude::*;
use crate::ast::aadl_ast_cj::{
    AnnexContent, AnnexSubclause, BehaviorAnnexContent, ComponentImplementation, BehaviorCondition, DispatchConjunction, DispatchTrigger, DispatchTriggerCondition, Transition,
    AssignmentAction, AssignmentValue, BasicAction, BehaviorAction, BehaviorActionBlock,
    BehaviorActions, CommunicationAction, IfStatement, PortCommunication, Target, TimedAction,
    State, StateModifier, StateVariable, AddExpression, AdditiveOperation, AdditiveOperator, BasicExpression, BinaryOperator,
    DataComponentReference, Factor, LogicalOperation, LogicalOperator, MultiplicativeOperation,
    MultiplicativeOperator, PortQualifier, Relation, RelationalOperator, SimpleExpression, Term,
    UnaryAddingOperator, Value, ValueConstant, ValueExpression, ValueVariable,
};
use crate::intermediate_ast::{
    mk_ns3, arms_view, MatchArm, SpecLiteral, SpecMatchArm, append_stmts, mk_assign, mk_block, mk_comment, s_assign, s_block, lemma_views_empty, mk_let, mk_named, mk_ns2, s_let, s_ns2, stmts_view, variants_view,
    EnumDef, Item, SpecEnumDef, SpecItem, SpecStatement, SpecType, SpecVariant, Statement, Type,
    Variant, Visibility, group_view_laws, mk_bin, mk_bool, mk_ident, mk_int, mk_mcall0, mk_mcall1, mk_member, mk_un,
    s_bin, s_bool, s_float, s_ident, s_int, s_mcall, s_member, s_str, s_un, Expr, Literal,
    PathType, SpecExpr,
};
use crate::text::{
    insert_unique, lemma_insert_all_concat, lemma_insert_all_push, spec_dedup, spec_insert,
    spec_insert_all, concat, lowercase, str_eq, to_lower, float_syntax, is_float_text, join_strings, parse_i64, seq_join, spec_parse_i64, strings_view,
};

verus! {

broadcast use group_view_laws;

// ---------------------------------------------------------------------------
// Operators
// ---------------------------------------------------------------------------

/// The Rust operator for an AADL logical operator.
pub open spec fn spec_logical_op(op: LogicalOperator) -> Seq<char> {
    match op {
        LogicalOperator::And => "&&"@,
        LogicalOperator::Or => "||"@,
        LogicalOperator::Xor => "^"@,
    }
}

/// The Rust operator for an AADL relational operator.
pub open spec fn spec_relational_op(op: RelationalOperator) -> Seq<char> {
    match op {
        RelationalOperator::Equal => "=="@,
        RelationalOperator::NotEqual => "!="@,
        RelationalOperator::LessThan => "<"@,
        RelationalOperator::LessThanOrEqual => "<="@,
        RelationalOperator::GreaterThan => ">"@,
        RelationalOperator::GreaterThanOrEqual => ">="@,
    }
}

/// The Rust operator for a binary adding operator.
pub open spec fn spec_additive_op(op: AdditiveOperator) -> Seq<char> {
    match op {
        AdditiveOperator::Add => "+"@,
        AdditiveOperator::Subtract => "-"@,
    }
}

/// The Rust operator for a multiplying operator; `mod` and `rem` both become `%`.
pub open spec fn spec_multiplicative_op(op: MultiplicativeOperator) -> Seq<char> {
    match op {
        MultiplicativeOperator::Multiply => "*"@,
        MultiplicativeOperator::Divide => "/"@,
        MultiplicativeOperator::Modulo => "%"@,
        MultiplicativeOperator::Remainder => "%"@,
    }
}

/// The Rust operator for a binary operator of a behavior expression.
pub open spec fn spec_binary_op(op: BinaryOperator) -> Seq<char> {
    match op {
        BinaryOperator::And => "&&"@,
        BinaryOperator::Or => "||"@,
        BinaryOperator::Equal => "=="@,
        BinaryOperator::NotEqual => "!="@,
        BinaryOperator::LessThan => "<"@,
        BinaryOperator::LessThanOrEqual => "<="@,
        BinaryOperator::GreaterThan => ">"@,
        BinaryOperator::GreaterThanOrEqual => ">="@,
        BinaryOperator::Add => "+"@,
        BinaryOperator::Subtract => "-"@,
        BinaryOperator::Multiply => "*"@,
        BinaryOperator::Divide => "/"@,
        BinaryOperator::Modulo => "%"@,
    }
}

fn logical_op_text(op: &LogicalOperator) -> (res: &'static str)
    ensures
        res@ == spec_logical_op(*op),
{
    match op {
        LogicalOperator::And => "&&",
        LogicalOperator::Or => "||",
        LogicalOperator::Xor => "^",
    }
}

fn relational_op_text(op: &RelationalOperator) -> (res: &'static str)
    ensures
        res@ == spec_relational_op(*op),
{
    match op {
        RelationalOperator::Equal => "==",
        RelationalOperator::NotEqual => "!=",
        RelationalOperator::LessThan => "<",
        RelationalOperator::LessThanOrEqual => "<=",
        RelationalOperator::GreaterThan => ">",
        RelationalOperator::GreaterThanOrEqual => ">=",
    }
}

fn additive_op_text(op: &AdditiveOperator) -> (res: &'static str)
    ensures
        res@ == spec_additive_op(*op),
{
    match op {
        AdditiveOperator::Add => "+",
        AdditiveOperator::Subtract => "-",
    }
}

fn multiplicative_op_text(op: &MultiplicativeOperator) -> (res: &'static str)
    ensures
        res@ == spec_multiplicative_op(*op),
{
    match op {
        MultiplicativeOperator::Multiply => "*",
        MultiplicativeOperator::Divide => "/",
        MultiplicativeOperator::Modulo => "%",
        MultiplicativeOperator::Remainder => "%",
    }
}

fn binary_op_text(op: &BinaryOperator) -> (res: &'static str)
    ensures
        res@ == spec_binary_op(*op),
{
    match op {
        BinaryOperator::And => "&&",
        BinaryOperator::Or => "||",
        BinaryOperator::Equal => "==",
        BinaryOperator::NotEqual => "!=",
        BinaryOperator::LessThan => "<",
        BinaryOperator::LessThanOrEqual => "<=",
        BinaryOperator::GreaterThan => ">",
        BinaryOperator::GreaterThanOrEqual => ">=",
        BinaryOperator::Add => "+",
        BinaryOperator::Subtract => "-",
        BinaryOperator::Multiply => "*",
        BinaryOperator::Divide => "/",
        BinaryOperator::Modulo => "%",
    }
}

// ---------------------------------------------------------------------------
// Specification of the expression translation
// ---------------------------------------------------------------------------

/// A numeric literal: an integer where the text is one, else a float where
/// the text is one, else `0`.
pub open spec fn spec_numeric_literal(s: Seq<char>) -> SpecExpr {
    match spec_parse_i64(s) {
        Some(v) => s_int(v),
        None => if float_syntax(s) {
            s_float(s)
        } else {
            s_int(0)
        },
    }
}

pub open spec fn spec_value_constant(c: ValueConstant) -> SpecExpr {
    match c {
        ValueConstant::Boolean(b) => s_bool(b),
        ValueConstant::Numeric(s) => spec_numeric_literal(s@),
        ValueConstant::String(s) => s_str(s@),
        ValueConstant::PropertyConstant(_) => s_int(0),
        ValueConstant::PropertyValue(_) => s_int(0),
    }
}

/// The field name that a data component reference `a.b.c` becomes: `a_b_c`.
pub open spec fn spec_component_field(r: DataComponentReference) -> Seq<char> {
    seq_join(strings_view(r.components@), "_"@)
}

pub open spec fn spec_value_variable(v: ValueVariable) -> SpecExpr {
    match v {
        ValueVariable::IncomingPort(p) => s_ident(p@ + "_val"@),
        ValueVariable::IncomingPortCheck(p) => s_mcall(
            s_member("self"@, p@),
            "is_some"@,
            Seq::empty(),
        ),
        ValueVariable::LocalVariable(n) => s_ident(n@),
        ValueVariable::DataComponentReference(r) => s_member("self"@, spec_component_field(r)),
        ValueVariable::PortCount(p) => s_mcall(s_member("self"@, p@), "len"@, Seq::empty()),
        ValueVariable::PortFresh(_) => s_bool(true),
        ValueVariable::IncomingSubprogramParameter(n) => s_ident(n@),
    }
}

pub open spec fn spec_basic_expression(e: BasicExpression) -> SpecExpr
    decreases e,
{
    match e {
        BasicExpression::NumericOrConstant(s) => spec_numeric_literal(s@),
        BasicExpression::BehaviorVariable(n) => s_ident(n@),
        BasicExpression::LoopVariable(n) => s_ident(n@),
        BasicExpression::Port(p) => s_member("self"@, p@),
        BasicExpression::PortWithQualifier { port, qualifier } => match qualifier {
            PortQualifier::Count => s_mcall(s_member("self"@, port@), "len"@, Seq::empty()),
            PortQualifier::Fresh => s_bool(true),
        },
        BasicExpression::DataAccess(a) => s_member("self"@, a@),
        BasicExpression::Timeout(_) => s_int(0),
        BasicExpression::DataSubcomponent(s) => s_member("self"@, s@),
        BasicExpression::DataSubcomponentWithIndex { subcomponent, index } => SpecExpr::Index(
            Box::new(s_member("self"@, subcomponent@)),
            Box::new(spec_basic_expression(*index)),
        ),
        BasicExpression::DataAccessWithSubcomponent { access, subcomponent } => SpecExpr::Path(
            seq!["self"@, access@, subcomponent@],
            PathType::Member,
        ),
        BasicExpression::DataSubcomponentWithSubcomponent { container, subcomponent } => SpecExpr::Path(
            seq!["self"@, container@, subcomponent@],
            PathType::Member,
        ),
        BasicExpression::DataClassifierSubprogram { .. } => s_int(0),
        BasicExpression::DataClassifierSubprogramWithTimeout { .. } => s_int(0),
        BasicExpression::DataClassifierSubprogramWithParameter { .. } => s_int(0),
        BasicExpression::Parenthesized(x) => SpecExpr::Parenthesized(
            Box::new(spec_basic_expression(*x)),
        ),
        BasicExpression::Quantified { .. } => s_bool(false),
        BasicExpression::BinaryOp { left, operator, right } => s_bin(
            spec_basic_expression(*left),
            spec_binary_op(operator),
            spec_basic_expression(*right),
        ),
        BasicExpression::Not(x) => s_un("!"@, spec_basic_expression(*x)),
    }
}

/// `acc` followed by each multiplying operation, folded from the left.
pub open spec fn spec_mult_fold(acc: SpecExpr, ops: Seq<MultiplicativeOperation>) -> SpecExpr
    decreases ops.len(),
{
    if ops.len() == 0 {
        acc
    } else {
        s_bin(
            spec_mult_fold(acc, ops.drop_last()),
            spec_multiplicative_op(ops.last().operator),
            spec_basic_expression(ops.last().right),
        )
    }
}

pub open spec fn spec_add_expression(e: AddExpression) -> SpecExpr {
    spec_mult_fold(spec_basic_expression(e.left), e.operations@)
}

/// `acc` followed by each adding operation, folded from the left.
pub open spec fn spec_additive_fold(acc: SpecExpr, ops: Seq<AdditiveOperation>) -> SpecExpr
    decreases ops.len(),
{
    if ops.len() == 0 {
        acc
    } else {
        s_bin(
            spec_additive_fold(acc, ops.drop_last()),
            spec_additive_op(ops.last().operator),
            spec_add_expression(ops.last().right),
        )
    }
}

pub open spec fn spec_value_expression(e: ValueExpression) -> SpecExpr
    decreases e,
{
    spec_logical_fold(spec_relation(e.left), e.operations@)
}

/// `acc` followed by each logical operation, folded from the left.
pub open spec fn spec_logical_fold(acc: SpecExpr, ops: Seq<LogicalOperation>) -> SpecExpr
    decreases ops,
{
    if ops.len() == 0 {
        acc
    } else {
        s_bin(
            spec_logical_fold(acc, ops.drop_last()),
            spec_logical_op(ops.last().operator),
            spec_relation(ops.last().right),
        )
    }
}

pub open spec fn spec_relation(r: Relation) -> SpecExpr
    decreases r,
{
    match r.comparison {
        Some(c) => s_bin(
            spec_simple_expression(r.left),
            spec_relational_op(c.operator),
            spec_simple_expression(c.right),
        ),
        None => spec_simple_expression(r.left),
    }
}

pub open spec fn spec_simple_expression(e: SimpleExpression) -> SpecExpr
    decreases e,
{
    let t = spec_term(e.left);
    let signed = match e.sign {
        Some(UnaryAddingOperator::Minus) => s_un("-"@, t),
        _ => t,
    };
    spec_additive_fold(signed, e.operations@)
}

pub open spec fn spec_term(t: Term) -> SpecExpr
    decreases t,
{
    spec_mult_fold(spec_factor(t.left), t.operations@)
}

pub open spec fn spec_factor(f: Factor) -> SpecExpr
    decreases f,
{
    match f {
        Factor::Value(v) => spec_value(v),
        Factor::BinaryNumeric { left, operator, right } => s_mcall(
            spec_value(left),
            "pow"@,
            seq![spec_value(right)],
        ),
        Factor::UnaryNumeric { operator, value } => s_mcall(
            spec_value(value),
            "abs"@,
            Seq::empty(),
        ),
        Factor::UnaryBoolean { operator, value } => s_un("!"@, spec_value(value)),
    }
}

pub open spec fn spec_value(v: Value) -> SpecExpr
    decreases v,
{
    match v {
        Value::Variable(x) => spec_value_variable(x),
        Value::Constant(c) => spec_value_constant(c),
        Value::Expression(e) => spec_value_expression(*e),
    }
}

// ---------------------------------------------------------------------------
// The converter and its expression translation
// ---------------------------------------------------------------------------

/// Generator for Behavior Annex state machines.  It remembers, per state
/// name, whether a transition into that state continues the macro step, and
/// which states got a guarded transition in the last generated `match`.
pub struct AnnexConverter {
    state_info: Vec<(String, bool)>,
    states_with_conditions: Vec<String>,
}

/// What a sequence of (name, flag) records says of `name`: the flag of the
/// last record for it, if any.
pub open spec fn spec_lookup(info: Seq<(Seq<char>, bool)>, name: Seq<char>) -> Option<bool>
    decreases info.len(),
{
    if info.len() == 0 {
        None
    } else if info.last().0 == name {
        Some(info.last().1)
    } else {
        spec_lookup(info.drop_last(), name)
    }
}

/// Whether a transition into state `name` is followed by `continue`: what was
/// recorded for it last, and `true` for a state never recorded.
pub open spec fn spec_should_continue(info: Seq<(Seq<char>, bool)>, name: Seq<char>) -> bool {
    match spec_lookup(info, name) {
        Some(b) => b,
        None => true,
    }
}

impl AnnexConverter {
    /// The recorded (state name, needs continue) pairs, oldest first.
    pub closed spec fn info(&self) -> Seq<(Seq<char>, bool)> {
        self.state_info@.map_values(|p: (String, bool)| (p.0@, p.1))
    }

    /// The states that got a guarded transition in the last generated
    /// transition logic, each once, in the order first met.
    pub closed spec fn conditioned(&self) -> Seq<Seq<char>> {
        strings_view(self.states_with_conditions@)
    }
}

impl Default for AnnexConverter {
    fn default() -> (res: Self)
        ensures
            res.info() == Seq::<(Seq<char>, bool)>::empty(),
            res.conditioned() == Seq::<Seq<char>>::empty(),
    {
        let res = AnnexConverter { state_info: Vec::new(), states_with_conditions: Vec::new() };
        assert(res.info() =~= Seq::<(Seq<char>, bool)>::empty());
        assert(res.conditioned() =~= Seq::<Seq<char>>::empty());
        res
    }
}

fn numeric_literal(s: &String) -> (e: Expr)
    ensures
        e@ == spec_numeric_literal(s@),
{
    match parse_i64(s.as_str()) {
        Some(v) => mk_int(v),
        None => {
            if is_float_text(s.as_str()) {
                Expr::Literal(Literal::Float(s.clone()))
            } else {
                mk_int(0)
            }
        },
    }
}

fn self_path3(a: &String, b: &String) -> (e: Expr)
    ensures
        e@ == SpecExpr::Path(seq!["self"@, a@, b@], PathType::Member),
{
    let mut v: Vec<String> = Vec::new();
    v.push("self".to_string());
    v.push(a.clone());
    v.push(b.clone());
    assert(strings_view(v@) =~= seq!["self"@, a@, b@]);
    Expr::Path(v, PathType::Member)
}

impl AnnexConverter {
    fn convert_value_constant(&self, constant: &ValueConstant) -> (res: Expr)
        ensures
            res@ == spec_value_constant(*constant),
    {
        match constant {
            ValueConstant::Boolean(b) => mk_bool(*b),
            ValueConstant::Numeric(num_str) => numeric_literal(num_str),
            ValueConstant::String(s) => Expr::Literal(Literal::Str(s.clone())),
            ValueConstant::PropertyConstant(_) => mk_int(0),
            ValueConstant::PropertyValue(_) => mk_int(0),
        }
    }

    fn convert_value_variable(&self, var: &ValueVariable) -> (res: Expr)
        ensures
            res@ == spec_value_variable(*var),
    {
        match var {
            ValueVariable::IncomingPort(port_name) => Expr::Ident(concat(port_name.as_str(), "_val")),
            ValueVariable::IncomingPortCheck(port_name) => mk_mcall0(
                mk_member("self", port_name.as_str()),
                "is_some",
            ),
            ValueVariable::LocalVariable(var_name) => mk_ident(var_name.as_str()),
            ValueVariable::DataComponentReference(ref_data) => {
                let field = join_strings(&ref_data.components, "_");
                mk_member("self", field.as_str())
            },
            ValueVariable::PortCount(port_name) => mk_mcall0(
                mk_member("self", port_name.as_str()),
                "len",
            ),
            ValueVariable::PortFresh(_) => mk_bool(true),
            ValueVariable::IncomingSubprogramParameter(param_name) => mk_ident(param_name.as_str()),
        }
    }

    fn convert_basic_expression(&self, expr: &BasicExpression) -> (res: Expr)
        ensures
            res@ == spec_basic_expression(*expr),
        decreases expr,
    {
        match expr {
            BasicExpression::NumericOrConstant(num_str) => numeric_literal(num_str),
            BasicExpression::BehaviorVariable(var_name) => mk_ident(var_name.as_str()),
            BasicExpression::LoopVariable(var_name) => mk_ident(var_name.as_str()),
            BasicExpression::Port(port_name) => mk_member("self", port_name.as_str()),
            BasicExpression::PortWithQualifier { port, qualifier } => {
                match qualifier {
                    PortQualifier::Count => mk_mcall0(mk_member("self", port.as_str()), "len"),
                    PortQualifier::Fresh => mk_bool(true),
                }
            },
            BasicExpression::DataAccess(access_name) => mk_member("self", access_name.as_str()),
            BasicExpression::Timeout(_) => mk_int(0),
            BasicExpression::DataSubcomponent(sub_name) => mk_member("self", sub_name.as_str()),
            BasicExpression::DataSubcomponentWithIndex { subcomponent, index } => {
                let sub_expr = mk_member("self", subcomponent.as_str());
                let index_expr = self.convert_basic_expression(index);
                Expr::Index(Box::new(sub_expr), Box::new(index_expr))
            },
            BasicExpression::DataAccessWithSubcomponent { access, subcomponent } => {
                self_path3(access, subcomponent)
            },
            BasicExpression::DataSubcomponentWithSubcomponent { container, subcomponent } => {
                self_path3(container, subcomponent)
            },
            BasicExpression::DataClassifierSubprogram { .. } => mk_int(0),
            BasicExpression::DataClassifierSubprogramWithTimeout { .. } => mk_int(0),
            BasicExpression::DataClassifierSubprogramWithParameter { .. } => mk_int(0),
            BasicExpression::Parenthesized(inner) => {
                Expr::Parenthesized(Box::new(self.convert_basic_expression(inner)))
            },
            BasicExpression::Quantified { .. } => mk_bool(false),
            BasicExpression::BinaryOp { left, operator, right } => {
                let left_expr = self.convert_basic_expression(left);
                let right_expr = self.convert_basic_expression(right);
                mk_bin(left_expr, binary_op_text(operator), right_expr)
            },
            BasicExpression::Not(inner) => mk_un("!", self.convert_basic_expression(inner)),
        }
    }

    /// Folds the multiplying operations onto `acc`.
    fn fold_multiplicative(&self, acc: Expr, ops: &Vec<MultiplicativeOperation>) -> (res: Expr)
        ensures
            res@ == spec_mult_fold(acc@, ops@),
    {
        let ghost start = acc@;
        let mut result = acc;
        let mut i: usize = 0;
        while i < ops.len()
            invariant
                i <= ops.len(),
                result@ == spec_mult_fold(start, ops@.take(i as int)),
            decreases ops.len() - i,
        {
            let op = &ops[i];
            let right = self.convert_basic_expression(&op.right);
            proof {
                assert(ops@.take(i + 1).drop_last() =~= ops@.take(i as int));
            }
            result = mk_bin(result, multiplicative_op_text(&op.operator), right);
            i = i + 1;
        }
        assert(ops@.take(ops.len() as int) =~= ops@);
        result
    }

    fn convert_add_expression(&self, expr: &AddExpression) -> (res: Expr)
        ensures
            res@ == spec_add_expression(*expr),
    {
        let left = self.convert_basic_expression(&expr.left);
        self.fold_multiplicative(left, &expr.operations)
    }

    /// Folds the adding operations onto `acc`.
    fn fold_additive(&self, acc: Expr, ops: &Vec<AdditiveOperation>) -> (res: Expr)
        ensures
            res@ == spec_additive_fold(acc@, ops@),
    {
        let ghost start = acc@;
        let mut result = acc;
        let mut i: usize = 0;
        while i < ops.len()
            invariant
                i <= ops.len(),
                result@ == spec_additive_fold(start, ops@.take(i as int)),
            decreases ops.len() - i,
        {
            let op = &ops[i];
            let right = self.convert_add_expression(&op.right);
            proof {
                assert(ops@.take(i + 1).drop_last() =~= ops@.take(i as int));
            }
            result = mk_bin(result, additive_op_text(&op.operator), right);
            i = i + 1;
        }
        assert(ops@.take(ops.len() as int) =~= ops@);
        result
    }

    fn convert_value_expression(&self, expr: &ValueExpression) -> (res: Expr)
        ensures
            res@ == spec_value_expression(*expr),
        decreases expr,
    {
        let left = self.convert_relation(&expr.left);
        let ghost start = left@;
        let mut result = left;
        let mut i: usize = 0;
        while i < expr.operations.len()
            invariant
                i <= expr.operations.len(),
                start == spec_relation(expr.left),
                result@ == spec_logical_fold(start, expr.operations@.take(i as int)),
            decreases expr.operations.len() - i,
        {
            let op = &expr.operations[i];
            assert(decreases_to!(expr => expr.operations@[i as int]));
            let right = self.convert_relation(&op.right);
            proof {
                assert(expr.operations@.take(i + 1).drop_last() =~= expr.operations@.take(i as int));
            }
            result = mk_bin(result, logical_op_text(&op.operator), right);
            i = i + 1;
        }
        assert(expr.operations@.take(expr.operations.len() as int) =~= expr.operations@);
        result
    }

    fn convert_relation(&self, relation: &Relation) -> (res: Expr)
        ensures
            res@ == spec_relation(*relation),
        decreases relation,
    {
        let left = self.convert_simple_expression(&relation.left);
        match &relation.comparison {
            Some(comparison) => {
                let right = self.convert_simple_expression(&comparison.right);
                mk_bin(left, relational_op_text(&comparison.operator), right)
            },
            None => left,
        }
    }

    fn convert_simple_expression(&self, expr: &SimpleExpression) -> (res: Expr)
        ensures
            res@ == spec_simple_expression(*expr),
        decreases expr,
    {
        let mut result = self.convert_term(&expr.left);
        match &expr.sign {
            Some(UnaryAddingOperator::Minus) => {
                result = mk_un("-", result);
            },
            _ => {},
        }
        self.fold_additive(result, &expr.operations)
    }

    fn convert_term(&self, term: &Term) -> (res: Expr)
        ensures
            res@ == spec_term(*term),
        decreases term,
    {
        let left = self.convert_factor(&term.left);
        self.fold_multiplicative(left, &term.operations)
    }

    fn convert_factor(&self, factor: &Factor) -> (res: Expr)
        ensures
            res@ == spec_factor(*factor),
        decreases factor,
    {
        match factor {
            Factor::Value(value) => self.convert_value(value),
            Factor::BinaryNumeric { left, operator, right } => {
                let left_expr = self.convert_value(left);
                let right_expr = self.convert_value(right);
                mk_mcall1(left_expr, "pow", right_expr)
            },
            Factor::UnaryNumeric { operator, value } => {
                let value_expr = self.convert_value(value);
                mk_mcall0(value_expr, "abs")
            },
            Factor::UnaryBoolean { operator, value } => {
                let value_expr = self.convert_value(value);
                mk_un("!", value_expr)
            },
        }
    }

    fn convert_value(&self, value: &Value) -> (res: Expr)
        ensures
            res@ == spec_value(*value),
        decreases value,
    {
        match value {
            Value::Variable(var) => self.convert_value_variable(var),
            Value::Constant(constant) => self.convert_value_constant(constant),
            Value::Expression(expr) => self.convert_value_expression(expr),
        }
    }
}

// ---------------------------------------------------------------------------
// Types, initial values, state variables, the state enum and state records
// ---------------------------------------------------------------------------

/// The Rust type for an AADL data type name, matched without regard to case;
/// other names are kept as written.
pub open spec fn spec_aadl_type_to_rust(t: Seq<char>) -> SpecType {
    let l = lowercase(t);
    if l == "integer"@ || l == "i32"@ || l == "base_types::integer"@ {
        SpecType::Named("i32"@)
    } else if l == "boolean"@ || l == "bool"@ {
        SpecType::Named("bool"@)
    } else if l == "string"@ {
        SpecType::Named("String"@)
    } else if l == "real"@ || l == "f64"@ {
        SpecType::Named("f64"@)
    } else if l == "base_types::unsigned_16"@ {
        SpecType::Named("u16"@)
    } else if l == "base_types::boolean"@ {
        SpecType::Named("bool"@)
    } else {
        SpecType::Named(t)
    }
}

/// The initializer for a state variable written `init` of type `ty`.
pub open spec fn spec_parse_initial_value(init: Seq<char>, ty: SpecType) -> SpecExpr {
    match ty {
        SpecType::Named(n) => if n == "i32"@ {
            match spec_parse_i64(init) {
                Some(v) => s_int(v),
                None => s_int(0),
            }
        } else if n == "bool"@ {
            s_bool(lowercase(init) == "true"@)
        } else if n == "String"@ {
            s_str(init)
        } else if n == "f64"@ {
            if float_syntax(init) {
                s_float(init)
            } else {
                s_float("0.0"@)
            }
        } else {
            s_int(0)
        },
        _ => s_int(0),
    }
}

/// The default initializer for a state variable of type `ty`.
pub open spec fn spec_default_value(ty: SpecType) -> SpecExpr {
    match ty {
        SpecType::Named(n) => if n == "i32"@ {
            s_int(0)
        } else if n == "bool"@ {
            s_bool(false)
        } else if n == "String"@ {
            s_str(""@)
        } else if n == "f64"@ {
            s_float("0.0"@)
        } else {
            s_int(0)
        },
        _ => s_int(0),
    }
}

/// `let mut <name>: <type> = <init>;` for one state variable.
pub open spec fn spec_state_variable(v: StateVariable) -> SpecStatement {
    let ty = spec_aadl_type_to_rust(v.data_type@);
    let init = match v.initial_value {
        Some(i) => spec_parse_initial_value(i@, ty),
        None => spec_default_value(ty),
    };
    s_let(true, v.identifier@, Some(ty), Some(init))
}

pub open spec fn spec_state_variables(vs: Seq<StateVariable>) -> Seq<SpecStatement> {
    vs.map_values(|v: StateVariable| spec_state_variable(v))
}

/// The enum variant for a state identifier.
pub open spec fn spec_state_variant(id: Seq<char>) -> SpecVariant {
    SpecVariant { name: id, data: None, docs: seq!["// State: "@ + id] }
}

/// The variants for the identifiers of `states`, in order.
pub open spec fn spec_state_variants(states: Seq<State>) -> Seq<SpecVariant>
    decreases states.len(),
{
    if states.len() == 0 {
        Seq::empty()
    } else {
        spec_state_variants(states.drop_last()) + states.last().identifiers@.map_values(
            |s: String| spec_state_variant(s@),
        )
    }
}

/// The local `State` enum with one variant per state identifier.
pub open spec fn spec_state_enum(states: Seq<State>) -> Seq<SpecStatement> {
    seq![
        SpecStatement::Item(
            Box::new(
                SpecItem::Enum(
                    SpecEnumDef {
                        name: "State"@,
                        variants: spec_state_variants(states),
                        generics: Seq::empty(),
                        derives: seq!["Debug"@, "Clone"@],
                        docs: seq!["// Behavior Annex state machine states"@],
                        vis: Visibility::Private,
                    },
                ),
            ),
        ),
    ]
}

/// A state goes on with the macro step unless it is `complete` or `final`.
pub open spec fn spec_needs_continue(s: State) -> bool {
    !s.modifiers@.contains(StateModifier::Complete) && !s.modifiers@.contains(StateModifier::Final)
}

/// The (identifier, needs continue) records for `states`, in order.
pub open spec fn spec_state_entries(states: Seq<State>) -> Seq<(Seq<char>, bool)>
    decreases states.len(),
{
    if states.len() == 0 {
        Seq::empty()
    } else {
        spec_state_entries(states.drop_last()) + states.last().identifiers@.map_values(
            |s: String| (s@, spec_needs_continue(states.last())),
        )
    }
}

/// The first identifier of the first `initial` state, if that state has one.
pub open spec fn spec_initial_state(states: Seq<State>) -> Option<Seq<char>>
    decreases states.len(),
{
    if states.len() == 0 {
        None
    } else if states[0].modifiers@.contains(StateModifier::Initial) {
        if states[0].identifiers@.len() > 0 {
            Some(states[0].identifiers@[0]@)
        } else {
            None
        }
    } else {
        spec_initial_state(states.drop_first())
    }
}

/// `let mut state: State = State::<initial>;` where there is an initial state.
pub open spec fn spec_initial_state_stmts(states: Seq<State>) -> Seq<SpecStatement> {
    match spec_initial_state(states) {
        Some(id) => seq![
            s_let(true, "state"@, Some(SpecType::Named("State"@)), Some(s_ns2("State"@, id))),
        ],
        None => Seq::empty(),
    }
}

fn has_modifier(mods: &Vec<StateModifier>, m: StateModifier) -> (res: bool)
    ensures
        res == mods@.contains(m),
{
    let mut i: usize = 0;
    while i < mods.len()
        invariant
            i <= mods.len(),
            forall|j: int| 0 <= j < i ==> mods@[j] != m,
        decreases mods.len() - i,
    {
        if mods[i] == m {
            assert(mods@[i as int] == m);
            return true;
        }
        i = i + 1;
    }
    false
}

impl AnnexConverter {
    /// The Rust type for an AADL data type name.
    fn convert_aadl_type_to_rust(&self, aadl_type: &str) -> (res: Type)
        ensures
            res@ == spec_aadl_type_to_rust(aadl_type@),
    {
        let l = to_lower(aadl_type);
        let l = l.as_str();
        if str_eq(l, "integer") || str_eq(l, "i32") || str_eq(l, "base_types::integer") {
            mk_named("i32")
        } else if str_eq(l, "boolean") || str_eq(l, "bool") {
            mk_named("bool")
        } else if str_eq(l, "string") {
            mk_named("String")
        } else if str_eq(l, "real") || str_eq(l, "f64") {
            mk_named("f64")
        } else if str_eq(l, "base_types::unsigned_16") {
            mk_named("u16")
        } else if str_eq(l, "base_types::boolean") {
            mk_named("bool")
        } else {
            mk_named(aadl_type)
        }
    }

    /// The initializer for a state variable written `init_value` of type `rust_type`.
    fn parse_initial_value(&self, init_value: &str, rust_type: &Type) -> (res: Expr)
        ensures
            res@ == spec_parse_initial_value(init_value@, rust_type@),
    {
        match rust_type {
            Type::Named(named) => {
                let n = named.as_str();
                if str_eq(n, "i32") {
                    match parse_i64(init_value) {
                        Some(v) => mk_int(v),
                        None => mk_int(0),
                    }
                } else if str_eq(n, "bool") {
                    let l = to_lower(init_value);
                    mk_bool(str_eq(l.as_str(), "true"))
                } else if str_eq(n, "String") {
                    Expr::Literal(Literal::Str(init_value.to_string()))
                } else if str_eq(n, "f64") {
                    if is_float_text(init_value) {
                        Expr::Literal(Literal::Float(init_value.to_string()))
                    } else {
                        Expr::Literal(Literal::Float("0.0".to_string()))
                    }
                } else {
                    mk_int(0)
                }
            },
            _ => mk_int(0),
        }
    }

    /// The default initializer for a state variable of type `rust_type`.
    fn generate_default_value_for_type(&self, rust_type: &Type) -> (res: Expr)
        ensures
            res@ == spec_default_value(rust_type@),
    {
        match rust_type {
            Type::Named(named) => {
                let n = named.as_str();
                if str_eq(n, "i32") {
                    mk_int(0)
                } else if str_eq(n, "bool") {
                    mk_bool(false)
                } else if str_eq(n, "String") {
                    Expr::Literal(Literal::Str("".to_string()))
                } else if str_eq(n, "f64") {
                    Expr::Literal(Literal::Float("0.0".to_string()))
                } else {
                    mk_int(0)
                }
            },
            _ => mk_int(0),
        }
    }

    /// One `let mut` declaration per state variable.
    fn generate_state_variables(&self, state_vars: &[StateVariable]) -> (res: Vec<Statement>)
        ensures
            stmts_view(res@) == spec_state_variables(state_vars@),
    {
        let mut stmts: Vec<Statement> = Vec::new();
        let mut i: usize = 0;
        proof {
            lemma_views_empty();
        }
        while i < state_vars.len()
            invariant
                i <= state_vars@.len(),
                stmts_view(stmts@) == spec_state_variables(state_vars@.take(i as int)),
            decreases state_vars@.len() - i,
        {
            let var = &state_vars[i];
            let rust_type = self.convert_aadl_type_to_rust(var.data_type.as_str());
            let init_value = match &var.initial_value {
                Some(init) => self.parse_initial_value(init.as_str(), &rust_type),
                None => self.generate_default_value_for_type(&rust_type),
            };
            let st = mk_let(true, var.identifier.as_str(), Some(rust_type), Some(init_value));
            stmts.push(st);
            proof {
                assert(state_vars@.take(i + 1) =~= state_vars@.take(i as int).push(*var));
                assert(spec_state_variables(state_vars@.take(i + 1)) =~= spec_state_variables(
                    state_vars@.take(i as int),
                ).push(spec_state_variable(*var)));
            }
            i = i + 1;
        }
        assert(state_vars@.take(state_vars@.len() as int) =~= state_vars@);
        stmts
    }

    /// The local `State` enum declaration.
    fn generate_state_enum(&self, states: &[State]) -> (res: Vec<Statement>)
        ensures
            stmts_view(res@) == spec_state_enum(states@),
    {
        let mut variants: Vec<Variant> = Vec::new();
        let mut i: usize = 0;
        while i < states.len()
            invariant
                i <= states@.len(),
                variants_view(variants@) == spec_state_variants(states@.take(i as int)),
            decreases states@.len() - i,
        {
            let state = &states[i];
            let mut j: usize = 0;
            let ghost before = variants_view(variants@);
            while j < state.identifiers.len()
                invariant
                    j <= state.identifiers@.len(),
                    variants_view(variants@) == before + state.identifiers@.take(j as int).map_values(
                        |s: String| spec_state_variant(s@),
                    ),
                decreases state.identifiers@.len() - j,
            {
                let id = &state.identifiers[j];
                let mut docs: Vec<String> = Vec::new();
                docs.push(concat("// State: ", id.as_str()));
                let v = Variant { name: id.clone(), data: None, docs };
                let ghost old_v = variants@;
                variants.push(v);
                proof {
                    assert(strings_view(docs@) =~= seq!["// State: "@ + id@]);
                    assert(variants_view(variants@) =~= variants_view(old_v).push(
                        spec_state_variant(id@),
                    ));
                    assert(state.identifiers@.take(j + 1).map_values(
                        |s: String| spec_state_variant(s@),
                    ) =~= state.identifiers@.take(j as int).map_values(
                        |s: String| spec_state_variant(s@),
                    ).push(spec_state_variant(id@)));
                }
                j = j + 1;
            }
            proof {
                assert(state.identifiers@.take(j as int) =~= state.identifiers@);
                assert(states@.take(i + 1).drop_last() =~= states@.take(i as int));
            }
            i = i + 1;
        }
        assert(states@.take(states@.len() as int) =~= states@);
        let mut derives: Vec<String> = Vec::new();
        derives.push("Debug".to_string());
        derives.push("Clone".to_string());
        let mut docs: Vec<String> = Vec::new();
        docs.push("// Behavior Annex state machine states".to_string());
        let enum_def = EnumDef {
            name: "State".to_string(),
            variants,
            generics: Vec::new(),
            derives,
            docs,
            vis: Visibility::Private,
        };
        let mut out: Vec<Statement> = Vec::new();
        out.push(Statement::Item(Box::new(Item::Enum(enum_def))));
        proof {
            lemma_views_empty();
            assert(strings_view(derives@) =~= seq!["Debug"@, "Clone"@]);
            assert(strings_view(docs@) =~= seq!["// Behavior Annex state machine states"@]);
            assert(strings_view(Seq::<String>::empty()) =~= Seq::<Seq<char>>::empty());
            assert(out@ =~= Seq::<Statement>::empty().push(out@[0]));
        }
        out
    }

    /// Records, for each state identifier, whether a transition into it
    /// continues the macro step.
    fn store_state_info(&mut self, states: &[State])
        ensures
            final(self).info() == old(self).info() + spec_state_entries(states@),
            final(self).conditioned() == old(self).conditioned(),
    {
        let mut i: usize = 0;
        while i < states.len()
            invariant
                i <= states@.len(),
                self.info() == old(self).info() + spec_state_entries(states@.take(i as int)),
                self.conditioned() == old(self).conditioned(),
            decreases states@.len() - i,
        {
            let state = &states[i];
            let needs_continue = !has_modifier(&state.modifiers, StateModifier::Complete)
                && !has_modifier(&state.modifiers, StateModifier::Final);
            let mut j: usize = 0;
            let ghost before = self.info();
            while j < state.identifiers.len()
                invariant
                    j <= state.identifiers@.len(),
                    needs_continue == spec_needs_continue(*state),
                    self.info() == before + state.identifiers@.take(j as int).map_values(
                        |s: String| (s@, spec_needs_continue(*state)),
                    ),
                    self.conditioned() == old(self).conditioned(),
                decreases state.identifiers@.len() - j,
            {
                let id = state.identifiers[j].clone();
                let ghost old_info = self.info();
                self.state_info.push((id, needs_continue));
                proof {
                    assert(self.info() =~= old_info.push((state.identifiers@[j as int]@, needs_continue)));
                    assert(state.identifiers@.take(j + 1).map_values(
                        |s: String| (s@, spec_needs_continue(*state)),
                    ) =~= state.identifiers@.take(j as int).map_values(
                        |s: String| (s@, spec_needs_continue(*state)),
                    ).push((state.identifiers@[j as int]@, needs_continue)));
                }
                j = j + 1;
            }
            proof {
                assert(state.identifiers@.take(j as int) =~= state.identifiers@);
                assert(states@.take(i + 1).drop_last() =~= states@.take(i as int));
            }
            i = i + 1;
        }
        assert(states@.take(states@.len() as int) =~= states@);
    }

    /// `let mut state: State = State::<initial>;` for the first `initial` state.
    fn generate_initial_state(&self, states: &[State]) -> (res: Vec<Statement>)
        ensures
            stmts_view(res@) == spec_initial_state_stmts(states@),
    {
        let mut stmts: Vec<Statement> = Vec::new();
        let mut i: usize = 0;
        proof {
            lemma_views_empty();
            assert(states@.skip(0) =~= states@);
        }
        while i < states.len()
            invariant
                i <= states@.len(),
                spec_initial_state(states@.skip(i as int)) == spec_initial_state(states@),
                stmts@.len() == 0,
            decreases states@.len() - i,
        {
            let state = &states[i];
            assert(states@.skip(i as int)[0] == *state);
            if has_modifier(&state.modifiers, StateModifier::Initial) {
                if state.identifiers.len() > 0 {
                    let init_state = &state.identifiers[0];
                    let st = mk_let(
                        true,
                        "state",
                        Some(mk_named("State")),
                        Some(mk_ns2("State", init_state.as_str())),
                    );
                    stmts.push(st);
                    proof {
                        assert(stmts@ =~= Seq::<Statement>::empty().push(st));
                    }
                }
                return stmts;
            }
            proof {
                assert(states@.skip(i as int).drop_first() =~= states@.skip(i + 1));
            }
            i = i + 1;
        }
        stmts
    }
}

// ---------------------------------------------------------------------------
// Actions
// ---------------------------------------------------------------------------

/// The value of an assignment; `any` stands for the `any` value.
pub open spec fn spec_assign_value(v: AssignmentValue, any: SpecExpr) -> SpecExpr {
    match v {
        AssignmentValue::Expression(e) => spec_value_expression(e),
        AssignmentValue::Any => any,
    }
}

/// `if let Some(sender) = &mut self.<port> { let _ = sender.send(<value>); }`
pub open spec fn spec_send_stmt(port: Seq<char>, value: SpecExpr) -> SpecStatement {
    SpecStatement::Expr(
        SpecExpr::IfLet {
            pattern: "Some(sender)"@,
            value: Box::new(SpecExpr::Reference(Box::new(s_member("self"@, port)), true, false)),
            then_branch: s_block(
                seq![s_let(false, "_"@, None, Some(s_mcall(s_ident("sender"@), "send"@, seq![value])))],
            ),
            else_branch: None,
        },
    )
}

pub open spec fn spec_assignment(a: AssignmentAction) -> Seq<SpecStatement> {
    match a.target {
        Target::LocalVariable(n) => seq![
            SpecStatement::Expr(s_assign(s_ident(n@), spec_assign_value(a.value, s_int(0)))),
        ],
        Target::OutgoingPort(p) => seq![spec_send_stmt(p@, spec_assign_value(a.value, s_bool(true)))],
        Target::OutgoingSubprogramParameter(n) => seq![
            SpecStatement::Expr(s_assign(s_ident(n@), spec_assign_value(a.value, s_int(0)))),
        ],
        Target::DataComponentReference(r) => seq![
            SpecStatement::Expr(
                s_assign(
                    s_member("self"@, spec_component_field(r)),
                    spec_assign_value(a.value, s_int(0)),
                ),
            ),
        ],
    }
}

pub open spec fn spec_communication(c: CommunicationAction) -> Seq<SpecStatement> {
    match c {
        CommunicationAction::PortCommunication(pc) => match pc {
            PortCommunication::Output { port, value } => seq![
                spec_send_stmt(
                    lowercase(port@),
                    match value {
                        Some(v) => spec_value_expression(v),
                        None => s_bool(true),
                    },
                ),
            ],
            _ => seq![SpecStatement::Comment("TODO: Unsupported port communication"@)],
        },
        _ => seq![SpecStatement::Comment("TODO: Unsupported communication action"@)],
    }
}

pub open spec fn spec_basic_action(a: BasicAction) -> Seq<SpecStatement> {
    match a {
        BasicAction::Assignment(x) => spec_assignment(x),
        BasicAction::Communication(c) => spec_communication(c),
        BasicAction::Timed(_) => seq![SpecStatement::Comment("TODO: Timed action not implemented"@)],
    }
}

pub open spec fn spec_action_code(b: BehaviorActionBlock) -> Seq<SpecStatement>
    decreases b,
{
    match b.actions {
        BehaviorActions::Sequence(s) => spec_actions_list(s.actions@),
        BehaviorActions::ActionSet(s) => spec_actions_list(s.actions@),
        BehaviorActions::Single(a) => spec_single_action(*a),
    }
}

/// The statements of each action, one after the other.
pub open spec fn spec_actions_list(acts: Seq<BehaviorAction>) -> Seq<SpecStatement>
    decreases acts,
{
    if acts.len() == 0 {
        Seq::empty()
    } else {
        spec_actions_list(acts.drop_last()) + spec_single_action(acts.last())
    }
}

pub open spec fn spec_single_action(a: BehaviorAction) -> Seq<SpecStatement>
    decreases a,
{
    match a {
        BehaviorAction::Basic(b) => spec_basic_action(b),
        BehaviorAction::Block(bl) => spec_action_code(*bl),
        BehaviorAction::If(_) => seq![SpecStatement::Comment("TODO: If statement not implemented"@)],
        _ => seq![SpecStatement::Comment("TODO: Unsupported action type"@)],
    }
}

fn one_stmt(s: Statement) -> (res: Vec<Statement>)
    ensures
        stmts_view(res@) == seq![s@],
{
    let mut v: Vec<Statement> = Vec::new();
    let ghost sv = s@;
    v.push(s);
    proof {
        lemma_views_empty();
        assert(v@ =~= Seq::<Statement>::empty().push(v@[0]));
        assert(Seq::<SpecStatement>::empty().push(sv) =~= seq![sv]);
    }
    v
}

fn send_stmt(port: &str, value: Expr) -> (res: Statement)
    ensures
        res@ == spec_send_stmt(port@, value@),
{
    let call = mk_mcall1(mk_ident("sender"), "send", value);
    let body = one_stmt(mk_let(false, "_", None, Some(call)));
    Statement::Expr(
        Expr::IfLet {
            pattern: "Some(sender)".to_string(),
            value: Box::new(Expr::Reference(Box::new(mk_member("self", port)), true, false)),
            then_branch: mk_block(body),
            else_branch: None,
        },
    )
}

impl AnnexConverter {
    fn assign_value(&self, v: &AssignmentValue, any: Expr) -> (res: Expr)
        ensures
            res@ == spec_assign_value(*v, any@),
    {
        match v {
            AssignmentValue::Expression(e) => self.convert_value_expression(e),
            AssignmentValue::Any => any,
        }
    }

    /// The statements for an assignment action.
    fn generate_assignment_action(&self, assignment: &AssignmentAction) -> (res: Vec<Statement>)
        ensures
            stmts_view(res@) == spec_assignment(*assignment),
    {
        match &assignment.target {
            Target::LocalVariable(name) => {
                let value_expr = self.assign_value(&assignment.value, mk_int(0));
                one_stmt(Statement::Expr(mk_assign(mk_ident(name.as_str()), value_expr)))
            },
            Target::OutgoingPort(port_name) => {
                let value_expr = self.assign_value(&assignment.value, mk_bool(true));
                one_stmt(send_stmt(port_name.as_str(), value_expr))
            },
            Target::OutgoingSubprogramParameter(param_name) => {
                let value_expr = self.assign_value(&assignment.value, mk_int(0));
                one_stmt(Statement::Expr(mk_assign(mk_ident(param_name.as_str()), value_expr)))
            },
            Target::DataComponentReference(ref_data) => {
                let field = join_strings(&ref_data.components, "_");
                let value_expr = self.assign_value(&assignment.value, mk_int(0));
                one_stmt(
                    Statement::Expr(mk_assign(mk_member("self", field.as_str()), value_expr)),
                )
            },
        }
    }

    /// The statements for a communication action.
    fn generate_communication_action(&self, comm: &CommunicationAction) -> (res: Vec<Statement>)
        ensures
            stmts_view(res@) == spec_communication(*comm),
    {
        match comm {
            CommunicationAction::PortCommunication(port_comm) => {
                match port_comm {
                    PortCommunication::Output { port, value } => {
                        let port_name = to_lower(port.as_str());
                        let value_expr = match value {
                            Some(val) => self.convert_value_expression(val),
                            None => mk_bool(true),
                        };
                        one_stmt(send_stmt(port_name.as_str(), value_expr))
                    },
                    _ => one_stmt(mk_comment("TODO: Unsupported port communication")),
                }
            },
            _ => one_stmt(mk_comment("TODO: Unsupported communication action")),
        }
    }

    fn generate_timed_action(&self, timed: &TimedAction) -> (res: Vec<Statement>)
        ensures
            stmts_view(res@) == seq![SpecStatement::Comment("TODO: Timed action not implemented"@)],
    {
        one_stmt(mk_comment("TODO: Timed action not implemented"))
    }

    fn generate_if_statement(&self, if_stmt: &IfStatement) -> (res: Vec<Statement>)
        ensures
            stmts_view(res@) == seq![SpecStatement::Comment("TODO: If statement not implemented"@)],
    {
        one_stmt(mk_comment("TODO: If statement not implemented"))
    }

    fn generate_basic_action(&self, action: &BasicAction) -> (res: Vec<Statement>)
        ensures
            stmts_view(res@) == spec_basic_action(*action),
    {
        match action {
            BasicAction::Assignment(assignment) => self.generate_assignment_action(assignment),
            BasicAction::Communication(comm) => self.generate_communication_action(comm),
            BasicAction::Timed(timed) => self.generate_timed_action(timed),
        }
    }

    /// The statements of a list of actions, one after the other.
    fn generate_action_list(&self, actions: &Vec<BehaviorAction>) -> (res: Vec<Statement>)
        ensures
            stmts_view(res@) == spec_actions_list(actions@),
        decreases actions@,
    {
        let mut stmts: Vec<Statement> = Vec::new();
        let mut i: usize = 0;
        proof {
            lemma_views_empty();
        }
        while i < actions.len()
            invariant
                i <= actions@.len(),
                stmts_view(stmts@) == spec_actions_list(actions@.take(i as int)),
            decreases actions@.len() - i,
        {
            assert(decreases_to!(actions@ => actions@[i as int]));
            let more = self.generate_single_action(&actions[i]);
            append_stmts(&mut stmts, more);
            proof {
                assert(actions@.take(i + 1).drop_last() =~= actions@.take(i as int));
            }
            i = i + 1;
        }
        assert(actions@.take(actions@.len() as int) =~= actions@);
        stmts
    }

    /// The statements of an action block.
    fn generate_action_code(&self, actions: &BehaviorActionBlock) -> (res: Vec<Statement>)
        ensures
            stmts_view(res@) == spec_action_code(*actions),
        decreases actions,
    {
        match &actions.actions {
            BehaviorActions::Sequence(seq) => self.generate_action_list(&seq.actions),
            BehaviorActions::ActionSet(set) => self.generate_action_list(&set.actions),
            BehaviorActions::Single(action) => self.generate_single_action(action),
        }
    }

    /// The statements of one action.
    fn generate_single_action(&self, action: &BehaviorAction) -> (res: Vec<Statement>)
        ensures
            stmts_view(res@) == spec_single_action(*action),
        decreases action,
    {
        match action {
            BehaviorAction::Basic(basic_action) => self.generate_basic_action(basic_action),
            BehaviorAction::Block(block) => self.generate_action_code(block),
            BehaviorAction::If(if_stmt) => self.generate_if_statement(if_stmt),
            _ => one_stmt(mk_comment("TODO: Unsupported action type")),
        }
    }
}

// ---------------------------------------------------------------------------
// Ports, guards, match arms and the transition logic
// ---------------------------------------------------------------------------

pub open spec fn spec_trigger_port(t: DispatchTrigger) -> Seq<char> {
    match t {
        DispatchTrigger::InEventPort(p) => p@,
        DispatchTrigger::InEventDataPort(p) => p@,
    }
}

pub open spec fn spec_trigger_ports(ts: Seq<DispatchTrigger>) -> Seq<Seq<char>> {
    ts.map_values(|t: DispatchTrigger| spec_trigger_port(t))
}

/// The ports named by the triggers of each conjunction, in order.
pub open spec fn spec_conjunction_ports(cs: Seq<DispatchConjunction>) -> Seq<Seq<char>>
    decreases cs.len(),
{
    if cs.len() == 0 {
        Seq::empty()
    } else {
        spec_conjunction_ports(cs.drop_last()) + spec_trigger_ports(cs.last().dispatch_triggers@)
    }
}

/// The ports a behavior condition waits on: the triggers of a dispatch
/// condition's logical expression, or of an execute condition.
pub open spec fn spec_condition_ports(c: BehaviorCondition) -> Seq<Seq<char>> {
    match c {
        BehaviorCondition::Dispatch(dc) => match dc.trigger_condition {
            Some(DispatchTriggerCondition::LogicalExpression(le)) => spec_conjunction_ports(
                le.dispatch_conjunctions@,
            ),
            _ => Seq::empty(),
        },
        BehaviorCondition::Execute(ec) => spec_trigger_ports(ec.dispatch_triggers@),
    }
}

/// The ports of the conditions of each transition, in order.
pub open spec fn spec_transition_ports(ts: Seq<Transition>) -> Seq<Seq<char>>
    decreases ts.len(),
{
    if ts.len() == 0 {
        Seq::empty()
    } else {
        spec_transition_ports(ts.drop_last()) + match ts.last().behavior_condition {
            Some(c) => spec_condition_ports(c),
            None => Seq::empty(),
        }
    }
}

/// `self.<port>.as_mut().and_then(|rx| rx.try_recv().ok()).unwrap_or_default()`
pub open spec fn spec_port_receive_expr(port: Seq<char>) -> SpecExpr {
    s_mcall(
        s_mcall(
            s_mcall(s_member("self"@, port), "as_mut"@, Seq::empty()),
            "and_then"@,
            seq![
                SpecExpr::Closure(
                    seq!["rx"@],
                    Box::new(
                        s_mcall(
                            s_mcall(s_ident("rx"@), "try_recv"@, Seq::empty()),
                            "ok"@,
                            Seq::empty(),
                        ),
                    ),
                ),
            ],
        ),
        "unwrap_or_default"@,
        Seq::empty(),
    )
}

pub open spec fn spec_port_receive_stmt(port: Seq<char>) -> SpecStatement {
    s_let(false, port, None, Some(spec_port_receive_expr(port)))
}

/// One receiving `let` per distinct port that the transitions wait on.
pub open spec fn spec_port_receive_code(ts: Seq<Transition>) -> Seq<SpecStatement> {
    spec_dedup(spec_transition_ports(ts)).map_values(|p: Seq<char>| spec_port_receive_stmt(p))
}

/// The literal for a condition's number: an integer or float where the text
/// is one.
pub open spec fn spec_guard_number(n: Option<String>) -> Option<SpecLiteral> {
    match n {
        Some(s) => match spec_parse_i64(s@) {
            Some(v) => Some(SpecLiteral::Int(v)),
            None => if float_syntax(s@) {
                Some(SpecLiteral::Float(s@))
            } else {
                None
            },
        },
        None => None,
    }
}

/// The test for one trigger of an execute condition.
pub open spec fn spec_trigger_condition(t: DispatchTrigger, ec: DispatchConjunction) -> SpecExpr {
    let num = spec_guard_number(ec.number);
    let use_less_than = ec.less_than && num is Some;
    match t {
        DispatchTrigger::InEventPort(p) => {
            let pv = lowercase(p@);
            if use_less_than {
                let c = s_bin(SpecExpr::Literal(num->0), "<"@, s_ident(pv));
                if ec.not {
                    s_un("!"@, c)
                } else {
                    c
                }
            } else {
                s_bin(s_ident(pv), "=="@, s_bool(!ec.not))
            }
        },
        DispatchTrigger::InEventDataPort(p) => {
            let c = s_mcall(s_ident(lowercase(p@) + "_val"@), "is_some"@, Seq::empty());
            if ec.not {
                s_un("!"@, c)
            } else {
                c
            }
        },
    }
}

/// The trigger tests joined by `&&`, from the left.
pub open spec fn spec_and_fold(ts: Seq<DispatchTrigger>, ec: DispatchConjunction) -> SpecExpr
    decreases ts.len(),
{
    if ts.len() <= 1 {
        spec_trigger_condition(ts[0], ec)
    } else {
        s_bin(spec_and_fold(ts.drop_last(), ec), "&&"@, spec_trigger_condition(ts.last(), ec))
    }
}

/// The guard of an execute condition.
pub open spec fn spec_guard_condition(ec: DispatchConjunction) -> SpecExpr {
    if ec.dispatch_triggers@.len() == 0 {
        s_bool(!ec.not)
    } else {
        spec_and_fold(ec.dispatch_triggers@, ec)
    }
}

/// The guard of the match arms of a transition: present for an execute
/// condition with at least one trigger.
pub open spec fn spec_arm_guard(t: Transition) -> Option<SpecExpr> {
    match t.behavior_condition {
        Some(BehaviorCondition::Execute(ec)) => if ec.dispatch_triggers@.len() > 0 {
            Some(spec_guard_condition(ec))
        } else {
            None
        },
        _ => None,
    }
}

/// `state = State::<dest>;` then `continue` or a comment that the step stops.
pub open spec fn spec_transition_tail(
    dest: Seq<char>,
    info: Seq<(Seq<char>, bool)>,
    stop_note: Seq<char>,
) -> Seq<SpecStatement> {
    seq![SpecStatement::Expr(s_assign(s_ident("state"@), s_ns2("State"@, dest)))] + if spec_should_continue(
        info,
        dest,
    ) {
        seq![SpecStatement::Continue]
    } else {
        seq![SpecStatement::Comment(stop_note)]
    }
}

/// The body of the match arm of a transition.
pub open spec fn spec_arm_body(t: Transition, info: Seq<(Seq<char>, bool)>) -> Seq<SpecStatement> {
    let acts = match t.actions {
        Some(a) => spec_action_code(a),
        None => Seq::empty(),
    };
    let dest = t.destination_state@;
    acts + match t.behavior_condition {
        Some(BehaviorCondition::Dispatch(_)) => seq![
            SpecStatement::Comment("on dispatch \u{2192} "@ + dest),
        ] + spec_transition_tail(dest, info, "complete,\u{9700}\u{8981}\u{505c}"@),
        Some(BehaviorCondition::Execute(_)) => spec_transition_tail(
            dest,
            info,
            "complete,\u{9700}\u{8981}\u{505c}"@,
        ),
        None => spec_transition_tail(dest, info, "complete\u{ff0c}\u{505c}"@),
    }
}

/// The match arm for a transition out of `source`.
pub open spec fn spec_match_arm(t: Transition, source: Seq<char>, info: Seq<(Seq<char>, bool)>) -> SpecMatchArm {
    SpecMatchArm {
        pattern: "State::"@ + source,
        guard: spec_arm_guard(t),
        body: s_block(spec_arm_body(t, info)),
    }
}

/// One match arm per transition and source state, in order.
pub open spec fn spec_transition_arms(ts: Seq<Transition>, info: Seq<(Seq<char>, bool)>) -> Seq<
    SpecMatchArm,
>
    decreases ts.len(),
{
    if ts.len() == 0 {
        Seq::empty()
    } else {
        spec_transition_arms(ts.drop_last(), info) + ts.last().source_states@.map_values(
            |s: String| spec_match_arm(ts.last(), s@, info),
        )
    }
}

/// The source states of the guarded transitions, in order.
pub open spec fn spec_guarded_sources(ts: Seq<Transition>) -> Seq<Seq<char>>
    decreases ts.len(),
{
    if ts.len() == 0 {
        Seq::empty()
    } else {
        spec_guarded_sources(ts.drop_last()) + if spec_arm_guard(ts.last()) is Some {
            strings_view(ts.last().source_states@)
        } else {
            Seq::empty()
        }
    }
}

/// The fall-back arm for a state whose transitions are all guarded.
pub open spec fn spec_default_arm(name: Seq<char>) -> SpecMatchArm {
    SpecMatchArm {
        pattern: "State::"@ + name,
        guard: None,
        body: s_block(
            seq![
                SpecStatement::Comment(
                    "\u{7406}\u{8bba}\u{4e0a}\u{4e0d}\u{4f1a}\u{6267}\u{884c}\u{5230}\u{8fd9}\u{91cc}\u{ff0c}\u{4f46}\u{7f16}\u{8bd1}\u{5668}\u{9700}\u{8981}\u{8fd9}\u{4e2a}\u{5206}\u{652f}"@,
                ),
                SpecStatement::Expr(s_ident("break"@)),
            ],
        ),
    }
}

/// `// --- BA ... ---` then `loop { match state { <arms> } break; }`.
pub open spec fn spec_wrap_logic(arms: Seq<SpecMatchArm>) -> Seq<SpecStatement> {
    seq![
        SpecStatement::Comment("--- BA \u{5b8f}\u{6b65}\u{6267}\u{884c} ---"@),
        SpecStatement::Expr(
            SpecExpr::Loop(
                Box::new(
                    s_block(
                        seq![
                            SpecStatement::Expr(
                                SpecExpr::Match { expr: Box::new(s_ident("state"@)), arms },
                            ),
                            SpecStatement::Break,
                        ],
                    ),
                ),
            ),
        ),
    ]
}

/// The macro step: the transition arms followed by one fall-back arm per
/// guarded state, inside the loop of `spec_wrap_logic`.
pub open spec fn spec_transition_logic(ts: Seq<Transition>, info: Seq<(Seq<char>, bool)>) -> Seq<
    SpecStatement,
> {
    spec_wrap_logic(
        spec_transition_arms(ts, info) + spec_dedup(spec_guarded_sources(ts)).map_values(
            |n: Seq<char>| spec_default_arm(n),
        ),
    )
}

fn wrap_logic(match_arms: Vec<MatchArm>) -> (res: Vec<Statement>)
    ensures
        stmts_view(res@) == spec_wrap_logic(arms_view(match_arms@)),
{
    let match_expr = Expr::Match { expr: Box::new(mk_ident("state")), arms: match_arms };
    let mut loop_stmts: Vec<Statement> = Vec::new();
    loop_stmts.push(Statement::Expr(match_expr));
    loop_stmts.push(Statement::Break);
    let mut stmts: Vec<Statement> = Vec::new();
    stmts.push(mk_comment("--- BA \u{5b8f}\u{6b65}\u{6267}\u{884c} ---"));
    stmts.push(Statement::Expr(Expr::Loop(Box::new(mk_block(loop_stmts)))));
    proof {
        lemma_views_empty();
    }
    assert(stmts_view(loop_stmts@) =~= seq![
        SpecStatement::Expr(
            SpecExpr::Match { expr: Box::new(s_ident("state"@)), arms: arms_view(match_arms@) },
        ),
        SpecStatement::Break,
    ]);
    assert(stmts_view(stmts@) =~= spec_wrap_logic(arms_view(match_arms@)));
    stmts
}

impl AnnexConverter {
    /// Inserts into `ports` the port that `trigger` waits on, unless it is
    /// there already.
    pub fn extract_port_from_trigger(&self, trigger: &DispatchTrigger, ports: &mut Vec<String>)
        ensures
            strings_view(final(ports)@) == spec_insert(strings_view(old(ports)@), spec_trigger_port(*trigger)),
    {
        match trigger {
            DispatchTrigger::InEventPort(port_name) => insert_unique(ports, port_name),
            DispatchTrigger::InEventDataPort(port_name) => insert_unique(ports, port_name),
        }
    }

    /// Inserts the ports of `triggers` into `ports`.
    fn insert_trigger_ports(&self, triggers: &Vec<DispatchTrigger>, ports: &mut Vec<String>)
        ensures
            strings_view(final(ports)@) == spec_insert_all(
                strings_view(old(ports)@),
                spec_trigger_ports(triggers@),
            ),
    {
        let mut j: usize = 0;
        while j < triggers.len()
            invariant
                j <= triggers@.len(),
                strings_view(ports@) == spec_insert_all(
                    strings_view(old(ports)@),
                    spec_trigger_ports(triggers@.take(j as int)),
                ),
            decreases triggers@.len() - j,
        {
            self.extract_port_from_trigger(&triggers[j], ports);
            proof {
                assert(spec_trigger_ports(triggers@.take(j + 1)) =~= spec_trigger_ports(
                    triggers@.take(j as int),
                ).push(spec_trigger_port(triggers@[j as int])));
                lemma_insert_all_push(
                    strings_view(old(ports)@),
                    spec_trigger_ports(triggers@.take(j as int)),
                    spec_trigger_port(triggers@[j as int]),
                );
            }
            j = j + 1;
        }
        assert(triggers@.take(triggers@.len() as int) =~= triggers@);
    }
}

fn guard_number_literal(n: &Option<String>) -> (res: Option<Literal>)
    ensures
        match res {
            Some(l) => spec_guard_number(*n) == Some(l@),
            None => spec_guard_number(*n) is None,
        },
{
    match n {
        Some(num_str) => match parse_i64(num_str.as_str()) {
            Some(v) => Some(Literal::Int(v)),
            None => {
                if is_float_text(num_str.as_str()) {
                    Some(Literal::Float(num_str.clone()))
                } else {
                    None
                }
            },
        },
        None => None,
    }
}

impl AnnexConverter {
    /// Whether a transition into `state_name` continues the macro step.
    fn should_continue_state(&self, state_name: &str) -> (res: bool)
        ensures
            res == spec_should_continue(self.info(), state_name@),
    {
        let name = state_name.to_string();
        let mut i = self.state_info.len();
        assert(self.info().take(i as int) =~= self.info());
        while i > 0
            invariant
                i <= self.state_info@.len(),
                name@ == state_name@,
                spec_lookup(self.info(), name@) == spec_lookup(self.info().take(i as int), name@),
            decreases i,
        {
            let entry = &self.state_info[i - 1];
            proof {
                assert(self.info().take(i as int).drop_last() =~= self.info().take(i - 1));
                assert(self.info().take(i as int).last() == (entry.0@, entry.1));
            }
            if entry.0 == name {
                return entry.1;
            }
            i = i - 1;
        }
        true
    }

    /// Inserts into `ports` the ports that `condition` waits on.
    pub fn extract_ports_from_condition(&self, condition: &BehaviorCondition, ports: &mut Vec<String>)
        ensures
            strings_view(final(ports)@) == spec_insert_all(
                strings_view(old(ports)@),
                spec_condition_ports(*condition),
            ),
    {
        match condition {
            BehaviorCondition::Dispatch(dispatch_cond) => {
                match &dispatch_cond.trigger_condition {
                    Some(DispatchTriggerCondition::LogicalExpression(logical_expr)) => {
                        let cs = &logical_expr.dispatch_conjunctions;
                        let mut i: usize = 0;
                        while i < cs.len()
                            invariant
                                i <= cs@.len(),
                                strings_view(ports@) == spec_insert_all(
                                    strings_view(old(ports)@),
                                    spec_conjunction_ports(cs@.take(i as int)),
                                ),
                            decreases cs@.len() - i,
                        {
                            let ghost before = ports@;
                            self.insert_trigger_ports(&cs[i].dispatch_triggers, ports);
                            proof {
                                assert(cs@.take(i + 1).drop_last() =~= cs@.take(i as int));
                                lemma_insert_all_concat(
                                    strings_view(old(ports)@),
                                    spec_conjunction_ports(cs@.take(i as int)),
                                    spec_trigger_ports(cs@[i as int].dispatch_triggers@),
                                );
                            }
                            i = i + 1;
                        }
                        assert(cs@.take(cs@.len() as int) =~= cs@);
                    },
                    _ => {
                        assert(spec_condition_ports(*condition) =~= Seq::<Seq<char>>::empty());
                    },
                }
            },
            BehaviorCondition::Execute(execute_cond) => {
                self.insert_trigger_ports(&execute_cond.dispatch_triggers, ports);
            },
        }
    }

    /// `self.<port>.as_mut().and_then(|rx| rx.try_recv().ok()).unwrap_or_default()`
    fn build_port_receive_expr(&self, port_name: &str) -> (res: Expr)
        ensures
            res@ == spec_port_receive_expr(port_name@),
    {
        let base_expr = mk_member("self", port_name);
        let as_mut_expr = mk_mcall0(base_expr, "as_mut");
        let try_recv_expr = mk_mcall0(mk_ident("rx"), "try_recv");
        let ok_expr = mk_mcall0(try_recv_expr, "ok");
        let mut rx_params: Vec<String> = Vec::new();
        rx_params.push("rx".to_string());
        let closure_expr = Expr::Closure(rx_params, Box::new(ok_expr));
        let and_then_expr = mk_mcall1(as_mut_expr, "and_then", closure_expr);
        proof {
            assert(strings_view(rx_params@) =~= seq!["rx"@]);
        }
        mk_mcall0(and_then_expr, "unwrap_or_default")
    }

    /// One receiving `let` for each distinct port that the transitions' conditions wait on.
    pub fn generate_port_receive_code(&self, transitions: &[Transition]) -> (res: Vec<Statement>)
        ensures
            stmts_view(res@) == spec_port_receive_code(transitions@),
    {
        let mut ports: Vec<String> = Vec::new();
        let mut i: usize = 0;
        proof {
            lemma_views_empty();
        }
        while i < transitions.len()
            invariant
                i <= transitions@.len(),
                strings_view(ports@) == spec_dedup(spec_transition_ports(transitions@.take(i as int))),
            decreases transitions@.len() - i,
        {
            let transition = &transitions[i];
            let ghost before = ports@;
            match &transition.behavior_condition {
                Some(condition) => {
                    self.extract_ports_from_condition(condition, &mut ports);
                },
                None => {},
            }
            proof {
                assert(transitions@.take(i + 1).drop_last() =~= transitions@.take(i as int));
                let extra = match &transition.behavior_condition {
                    Some(c) => spec_condition_ports(*c),
                    None => Seq::empty(),
                };
                lemma_insert_all_concat(
                    Seq::empty(),
                    spec_transition_ports(transitions@.take(i as int)),
                    extra,
                );
                if transition.behavior_condition is None {
                    assert(strings_view(ports@) == strings_view(before));
                }
            }
            i = i + 1;
        }
        assert(transitions@.take(transitions@.len() as int) =~= transitions@);
        let mut stmts: Vec<Statement> = Vec::new();
        let mut k: usize = 0;
        while k < ports.len()
            invariant
                k <= ports@.len(),
                stmts_view(stmts@) == strings_view(ports@).take(k as int).map_values(
                    |p: Seq<char>| spec_port_receive_stmt(p),
                ),
            decreases ports@.len() - k,
        {
            let port_name = &ports[k];
            let init = self.build_port_receive_expr(port_name.as_str());
            stmts.push(mk_let(false, port_name.as_str(), None, Some(init)));
            proof {
                assert(strings_view(ports@).take(k + 1).map_values(
                    |p: Seq<char>| spec_port_receive_stmt(p),
                ) =~= strings_view(ports@).take(k as int).map_values(
                    |p: Seq<char>| spec_port_receive_stmt(p),
                ).push(spec_port_receive_stmt(ports@[k as int]@)));
            }
            k = k + 1;
        }
        assert(strings_view(ports@).take(ports@.len() as int) =~= strings_view(ports@));
        stmts
    }

    /// The test of one trigger of an execute condition.
    fn trigger_condition(&self, trigger: &DispatchTrigger, execute_cond: &DispatchConjunction) -> (res: Expr)
        ensures
            res@ == spec_trigger_condition(*trigger, *execute_cond),
    {
        let not_flag = execute_cond.not;
        let parsed_number = guard_number_literal(&execute_cond.number);
        let use_less_than = execute_cond.less_than && parsed_number.is_some();
        match trigger {
            DispatchTrigger::InEventPort(port_name) => {
                let port_var = to_lower(port_name.as_str());
                if use_less_than {
                    let number_literal = match parsed_number {
                        Some(l) => l,
                        None => Literal::Int(0),
                    };
                    let condition = mk_bin(
                        Expr::Literal(number_literal),
                        "<",
                        mk_ident(port_var.as_str()),
                    );
                    if not_flag {
                        mk_un("!", condition)
                    } else {
                        condition
                    }
                } else {
                    mk_bin(mk_ident(port_var.as_str()), "==", mk_bool(!not_flag))
                }
            },
            DispatchTrigger::InEventDataPort(port_name) => {
                let lower = to_lower(port_name.as_str());
                let port_var = concat(lower.as_str(), "_val");
                let condition = mk_mcall0(mk_ident(port_var.as_str()), "is_some");
                if not_flag {
                    mk_un("!", condition)
                } else {
                    condition
                }
            },
        }
    }

    /// The guard expression of an execute condition.
    fn generate_guard_condition(&self, execute_cond: &DispatchConjunction) -> (res: Expr)
        ensures
            res@ == spec_guard_condition(*execute_cond),
    {
        let ts = &execute_cond.dispatch_triggers;
        if ts.len() == 0 {
            return mk_bool(!execute_cond.not);
        }
        let mut result = self.trigger_condition(&ts[0], execute_cond);
        proof {
            assert(ts@.take(1).len() == 1);
            assert(ts@.take(1)[0] == ts@[0]);
        }
        let mut i: usize = 1;
        while i < ts.len()
            invariant
                1 <= i <= ts@.len(),
                result@ == spec_and_fold(ts@.take(i as int), *execute_cond),
            decreases ts@.len() - i,
        {
            let condition = self.trigger_condition(&ts[i], execute_cond);
            proof {
                assert(ts@.take(i + 1).drop_last() =~= ts@.take(i as int));
            }
            result = mk_bin(result, "&&", condition);
            i = i + 1;
        }
        assert(ts@.take(ts@.len() as int) =~= ts@);
        result
    }

    /// `state = State::<dest>;` then `continue`, or a note that the step stops.
    fn push_transition_tail(&self, stmts: &mut Vec<Statement>, dest: &String, stop_note: &str)
        ensures
            stmts_view(final(stmts)@) == stmts_view(old(stmts)@) + spec_transition_tail(
                dest@,
                self.info(),
                stop_note@,
            ),
    {
        let ghost before = stmts_view(stmts@);
        stmts.push(Statement::Expr(mk_assign(mk_ident("state"), mk_ns2("State", dest.as_str()))));
        if self.should_continue_state(dest.as_str()) {
            stmts.push(Statement::Continue);
        } else {
            stmts.push(mk_comment(stop_note));
        }
        proof {
            assert(stmts_view(stmts@) =~= before + spec_transition_tail(dest@, self.info(), stop_note@));
        }
    }

    /// The match arm for `transition` out of `source_state`; a guarded arm
    /// records its source state.
    fn generate_state_match_arm(&mut self, transition: &Transition, source_state: &String) -> (res: MatchArm)
        ensures
            res@ == spec_match_arm(*transition, source_state@, old(self).info()),
            final(self).info() == old(self).info(),
            final(self).conditioned() == if spec_arm_guard(*transition) is Some {
                spec_insert(old(self).conditioned(), source_state@)
            } else {
                old(self).conditioned()
            },
    {
        let mut stmts: Vec<Statement> = match &transition.actions {
            Some(actions) => self.generate_action_code(actions),
            None => Vec::new(),
        };
        proof {
            lemma_views_empty();
        }
        let ghost acts = stmts_view(stmts@);
        let mut guard: Option<Expr> = None;
        let dest = &transition.destination_state;
        match &transition.behavior_condition {
            Some(BehaviorCondition::Dispatch(_)) => {
                stmts.push(mk_comment(concat("on dispatch \u{2192} ", dest.as_str()).as_str()));
                self.push_transition_tail(&mut stmts, dest, "complete,\u{9700}\u{8981}\u{505c}");
                proof {
                    assert(stmts_view(stmts@) =~= acts + (seq![
                        SpecStatement::Comment("on dispatch \u{2192} "@ + dest@),
                    ] + spec_transition_tail(dest@, self.info(), "complete,\u{9700}\u{8981}\u{505c}"@)));
                }
            },
            Some(BehaviorCondition::Execute(execute_cond)) => {
                if execute_cond.dispatch_triggers.len() > 0 {
                    guard = Some(self.generate_guard_condition(execute_cond));
                    insert_unique(&mut self.states_with_conditions, source_state);
                }
                self.push_transition_tail(&mut stmts, dest, "complete,\u{9700}\u{8981}\u{505c}");
            },
            None => {
                self.push_transition_tail(&mut stmts, dest, "complete\u{ff0c}\u{505c}");
            },
        }
        MatchArm {
            pattern: concat("State::", source_state.as_str()),
            guard,
            body: mk_block(stmts),
        }
    }

    /// Appends the match arms of `transition`, one per source state.
    fn push_transition_arms(&mut self, transition: &Transition, match_arms: &mut Vec<MatchArm>)
        ensures
            arms_view(final(match_arms)@) == arms_view(old(match_arms)@)
                + transition.source_states@.map_values(
                |s: String| spec_match_arm(*transition, s@, old(self).info()),
            ),
            final(self).info() == old(self).info(),
            final(self).conditioned() == spec_insert_all(
                old(self).conditioned(),
                if spec_arm_guard(*transition) is Some {
                    strings_view(transition.source_states@)
                } else {
                    Seq::empty()
                },
            ),
    {
        let ghost info = self.info();
        let ghost cond0 = self.conditioned();
        let ghost arms_before = arms_view(match_arms@);
        let mut j: usize = 0;
        while j < transition.source_states.len()
            invariant
                j <= transition.source_states@.len(),
                self.info() == info,
                self.conditioned() == spec_insert_all(
                    cond0,
                    if spec_arm_guard(*transition) is Some {
                        strings_view(transition.source_states@).take(j as int)
                    } else {
                        Seq::empty()
                    },
                ),
                arms_view(match_arms@) == arms_before + transition.source_states@.take(
                    j as int,
                ).map_values(|s: String| spec_match_arm(*transition, s@, info)),
            decreases transition.source_states@.len() - j,
        {
            let source = &transition.source_states[j];
            let arm = self.generate_state_match_arm(transition, source);
            match_arms.push(arm);
            proof {
                assert(transition.source_states@.take(j + 1).map_values(
                    |s: String| spec_match_arm(*transition, s@, info),
                ) =~= transition.source_states@.take(j as int).map_values(
                    |s: String| spec_match_arm(*transition, s@, info),
                ).push(spec_match_arm(*transition, source@, info)));
                if spec_arm_guard(*transition) is Some {
                    assert(strings_view(transition.source_states@).take(j + 1) =~= strings_view(
                        transition.source_states@,
                    ).take(j as int).push(source@));
                    lemma_insert_all_push(
                        cond0,
                        strings_view(transition.source_states@).take(j as int),
                        source@,
                    );
                }
            }
            j = j + 1;
        }
        proof {
            assert(transition.source_states@.take(j as int) =~= transition.source_states@);
            assert(strings_view(transition.source_states@).take(j as int) =~= strings_view(
                transition.source_states@,
            ));
        }
    }

    /// Appends a fall-back arm for each recorded guarded state.
    fn push_default_arms(&self, match_arms: &mut Vec<MatchArm>)
        ensures
            arms_view(final(match_arms)@) == arms_view(old(match_arms)@) + self.conditioned().map_values(
                |n: Seq<char>| spec_default_arm(n),
            ),
    {
        let ghost names = self.conditioned();
        let ghost arms_before = arms_view(match_arms@);
        let mut k: usize = 0;
        while k < self.states_with_conditions.len()
            invariant
                k <= self.states_with_conditions@.len(),
                names == self.conditioned(),
                arms_view(match_arms@) == arms_before + names.take(k as int).map_values(
                    |n: Seq<char>| spec_default_arm(n),
                ),
            decreases self.states_with_conditions@.len() - k,
        {
            let state_name = &self.states_with_conditions[k];
            let mut body: Vec<Statement> = Vec::new();
            body.push(
                mk_comment(
                    "\u{7406}\u{8bba}\u{4e0a}\u{4e0d}\u{4f1a}\u{6267}\u{884c}\u{5230}\u{8fd9}\u{91cc}\u{ff0c}\u{4f46}\u{7f16}\u{8bd1}\u{5668}\u{9700}\u{8981}\u{8fd9}\u{4e2a}\u{5206}\u{652f}",
                ),
            );
            body.push(Statement::Expr(mk_ident("break")));
            let default_arm = MatchArm {
                pattern: concat("State::", state_name.as_str()),
                guard: None,
                body: mk_block(body),
            };
            proof {
                lemma_views_empty();
                assert(names[k as int] == state_name@);
                assert(stmts_view(body@) =~= seq![
                    SpecStatement::Comment(
                        "\u{7406}\u{8bba}\u{4e0a}\u{4e0d}\u{4f1a}\u{6267}\u{884c}\u{5230}\u{8fd9}\u{91cc}\u{ff0c}\u{4f46}\u{7f16}\u{8bd1}\u{5668}\u{9700}\u{8981}\u{8fd9}\u{4e2a}\u{5206}\u{652f}"@,
                    ),
                    SpecStatement::Expr(s_ident("break"@)),
                ]);
            }
            match_arms.push(default_arm);
            proof {
                assert(names.take(k + 1).map_values(|n: Seq<char>| spec_default_arm(n))
                    =~= names.take(k as int).map_values(|n: Seq<char>| spec_default_arm(n)).push(
                    spec_default_arm(names[k as int]),
                ));
            }
            k = k + 1;
        }
        assert(names.take(names.len() as int) =~= names);
    }

    /// The macro step of the state machine: a comment and a loop around a
    /// `match` on the current state.
    fn generate_state_transition_logic(&mut self, transitions: &[Transition]) -> (res: Vec<Statement>)
        ensures
            stmts_view(res@) == spec_transition_logic(transitions@, old(self).info()),
            final(self).info() == old(self).info(),
            final(self).conditioned() == spec_dedup(spec_guarded_sources(transitions@)),
    {
        let ghost info = self.info();
        self.states_with_conditions = Vec::new();
        proof {
            lemma_views_empty();
        }
        let mut match_arms: Vec<MatchArm> = Vec::new();
        let mut i: usize = 0;
        while i < transitions.len()
            invariant
                i <= transitions@.len(),
                self.info() == info,
                self.conditioned() == spec_dedup(spec_guarded_sources(transitions@.take(i as int))),
                arms_view(match_arms@) == spec_transition_arms(transitions@.take(i as int), info),
            decreases transitions@.len() - i,
        {
            let transition = &transitions[i];
            self.push_transition_arms(transition, &mut match_arms);
            proof {
                assert(transitions@.take(i + 1).drop_last() =~= transitions@.take(i as int));
                lemma_insert_all_concat(
                    Seq::empty(),
                    spec_guarded_sources(transitions@.take(i as int)),
                    if spec_arm_guard(*transition) is Some {
                        strings_view(transition.source_states@)
                    } else {
                        Seq::empty()
                    },
                );
            }
            i = i + 1;
        }
        assert(transitions@.take(transitions@.len() as int) =~= transitions@);
        self.push_default_arms(&mut match_arms);
        wrap_logic(match_arms)
    }
}
// ---------------------------------------------------------------------------
// The state machine as a whole
// ---------------------------------------------------------------------------

/// The body of the periodic loop: take the start time, receive the ports,
/// run the macro step, then sleep for the rest of the period.
pub open spec fn spec_loop_body(receive: Seq<SpecStatement>, logic: Seq<SpecStatement>) -> Seq<
    SpecStatement,
> {
    seq![
        s_let(
            false,
            "start"@,
            None,
            Some(SpecExpr::Call(Box::new(s_ns2("Instant"@, "now"@)), Seq::empty())),
        ),
    ] + receive + (if logic.len() > 0 {
        seq![SpecStatement::Expr(SpecExpr::Block(s_block(logic)))]
    } else {
        Seq::empty()
    }) + seq![
        s_let(false, "elapsed"@, None, Some(s_mcall(s_ident("start"@), "elapsed"@, Seq::empty()))),
        SpecStatement::Expr(
            s_mcall(
                SpecExpr::Path(seq!["std"@, "thread"@, "sleep"@], PathType::Namespace),
                ""@,
                seq![s_mcall(s_ident("period"@), "saturating_sub"@, seq![s_ident("elapsed"@)])],
            ),
        ),
    ]
}

/// The periodic loop of the state machine for `ts`.
pub open spec fn spec_state_machine_loop(ts: Seq<Transition>, info: Seq<(Seq<char>, bool)>) -> Seq<
    SpecStatement,
> {
    seq![
        SpecStatement::Expr(
            SpecExpr::Loop(
                Box::new(
                    s_block(
                        spec_loop_body(spec_port_receive_code(ts), spec_transition_logic(ts, info)),
                    ),
                ),
            ),
        ),
    ]
}

/// The records after generating the state machine of `annex`.
pub open spec fn spec_info_after(annex: BehaviorAnnexContent, info: Seq<(Seq<char>, bool)>) -> Seq<
    (Seq<char>, bool),
> {
    match annex.states {
        Some(states) => info + spec_state_entries(states@),
        None => info,
    }
}

/// The whole state machine for `annex`: the state variables, the state
/// enum, the initial state and the periodic loop, each where the annex has it.
pub open spec fn spec_state_machine_code(
    annex: BehaviorAnnexContent,
    info: Seq<(Seq<char>, bool)>,
) -> Seq<SpecStatement> {
    (match annex.state_variables {
        Some(vs) => spec_state_variables(vs@),
        None => Seq::empty(),
    }) + (match annex.states {
        Some(states) => spec_state_enum(states@) + spec_initial_state_stmts(states@),
        None => Seq::empty(),
    }) + (match annex.transitions {
        Some(ts) => spec_state_machine_loop(ts@, spec_info_after(annex, info)),
        None => Seq::empty(),
    })
}

/// The Behavior Annex content of the first annex subclause that has one.
pub open spec fn spec_find_behavior_annex(annexes: Seq<AnnexSubclause>) -> Option<BehaviorAnnexContent>
    decreases annexes.len(),
{
    if annexes.len() == 0 {
        None
    } else {
        match annexes[0].content {
            AnnexContent::BehaviorAnnex(c) => Some(c),
            _ => spec_find_behavior_annex(annexes.drop_first()),
        }
    }
}

impl AnnexConverter {
    /// The periodic loop of the state machine.
    #[verifier::spinoff_prover]
    #[verifier::rlimit(50)]
    fn generate_state_machine_loop(&mut self, transitions: &[Transition]) -> (res: Vec<Statement>)
        ensures
            stmts_view(res@) == spec_state_machine_loop(transitions@, old(self).info()),
            final(self).info() == old(self).info(),
            final(self).conditioned() == spec_dedup(spec_guarded_sources(transitions@)),
    {
        let ghost info = self.info();
        let port_receive_stmts = self.generate_port_receive_code(transitions);
        let state_transition_stmts = self.generate_state_transition_logic(transitions);
        let mut loop_body: Vec<Statement> = Vec::new();
        let start_call = Expr::Call(Box::new(mk_ns2("Instant", "now")), Vec::new());
        loop_body.push(mk_let(false, "start", None, Some(start_call)));
        let ghost receive = stmts_view(port_receive_stmts@);
        let ghost logic = stmts_view(state_transition_stmts@);
        proof {
            lemma_views_empty();
        }
        append_stmts(&mut loop_body, port_receive_stmts);
        let ghost mid = stmts_view(loop_body@);
        if state_transition_stmts.len() > 0 {
            loop_body.push(Statement::Expr(Expr::Block(mk_block(state_transition_stmts))));
        }
        let ghost mid2 = stmts_view(loop_body@);
        loop_body.push(mk_let(false, "elapsed", None, Some(mk_mcall0(mk_ident("start"), "elapsed"))));
        let sub = mk_mcall1(mk_ident("period"), "saturating_sub", mk_ident("elapsed"));
        loop_body.push(Statement::Expr(mk_mcall1(mk_ns3("std", "thread", "sleep"), "", sub)));
        proof {
            assert(logic.len() > 0 <==> state_transition_stmts@.len() > 0) by {
                assert(logic.len() == spec_transition_logic(transitions@, info).len());
            }
            assert(stmts_view(loop_body@) =~= spec_loop_body(receive, logic));
        }
        let mut stmts: Vec<Statement> = Vec::new();
        stmts.push(Statement::Expr(Expr::Loop(Box::new(mk_block(loop_body)))));
        proof {
            assert(stmts_view(stmts@) =~= spec_state_machine_loop(transitions@, info));
        }
        stmts
    }

    /// The state machine for a Behavior Annex.
    fn generate_state_machine_code(
        &mut self,
        impl_: &ComponentImplementation,
        behavior_annex: &BehaviorAnnexContent,
    ) -> (res: Option<Vec<Statement>>)
        ensures
            res is Some,
            stmts_view(res->0@) == spec_state_machine_code(*behavior_annex, old(self).info()),
            final(self).info() == spec_info_after(*behavior_annex, old(self).info()),
            final(self).conditioned() == match behavior_annex.transitions {
                Some(ts) => spec_dedup(spec_guarded_sources(ts@)),
                None => old(self).conditioned(),
            },
    {
        let ghost info0 = self.info();
        let mut stmts: Vec<Statement> = Vec::new();
        proof {
            lemma_views_empty();
        }
        match &behavior_annex.state_variables {
            Some(state_vars) => {
                let vars = self.generate_state_variables(state_vars.as_slice());
                append_stmts(&mut stmts, vars);
            },
            None => {},
        }
        let ghost part1 = stmts_view(stmts@);
        match &behavior_annex.states {
            Some(states) => {
                self.store_state_info(states.as_slice());
                let e = self.generate_state_enum(states.as_slice());
                append_stmts(&mut stmts, e);
            },
            None => {},
        }
        match &behavior_annex.states {
            Some(states) => {
                let init = self.generate_initial_state(states.as_slice());
                append_stmts(&mut stmts, init);
            },
            None => {},
        }
        let ghost part2 = stmts_view(stmts@);
        proof {
            assert(part2 =~= part1 + match behavior_annex.states {
                Some(states) => spec_state_enum(states@) + spec_initial_state_stmts(states@),
                None => Seq::empty(),
            });
            assert(self.info() == spec_info_after(*behavior_annex, info0));
        }
        match &behavior_annex.transitions {
            Some(transitions) => {
                let l = self.generate_state_machine_loop(transitions.as_slice());
                append_stmts(&mut stmts, l);
            },
            None => {},
        }
        proof {
            assert(stmts_view(stmts@) =~= spec_state_machine_code(*behavior_annex, info0));
        }
        Some(stmts)
    }

    /// The Behavior Annex of an implementation, if it has one.
    fn find_behavior_annex<'a>(&self, impl_: &'a ComponentImplementation) -> (res: Option<
        &'a BehaviorAnnexContent,
    >)
        ensures
            match res {
                Some(c) => spec_find_behavior_annex(impl_.annexes@) == Some(*c),
                None => spec_find_behavior_annex(impl_.annexes@) is None,
            },
    {
        let mut i: usize = 0;
        proof {
            assert(impl_.annexes@.skip(0) =~= impl_.annexes@);
        }
        while i < impl_.annexes.len()
            invariant
                i <= impl_.annexes@.len(),
                spec_find_behavior_annex(impl_.annexes@.skip(i as int)) == spec_find_behavior_annex(
                    impl_.annexes@,
                ),
            decreases impl_.annexes@.len() - i,
        {
            let annex = &impl_.annexes[i];
            assert(impl_.annexes@.skip(i as int)[0] == *annex);
            if let AnnexContent::BehaviorAnnex(content) = &annex.content {
                return Some(content);
            }
            proof {
                assert(impl_.annexes@.skip(i as int).drop_first() =~= impl_.annexes@.skip(i + 1));
            }
            i = i + 1;
        }
        None
    }

    /// The Behavior Annex state machine of a thread implementation: `None`
    /// when the implementation has no Behavior Annex, else the statements of
    /// `spec_state_machine_code` for the first one.
    pub fn generate_annex_code(&mut self, impl_: &ComponentImplementation) -> (res: Option<
        Vec<Statement>,
    >)
        ensures
            match spec_find_behavior_annex(impl_.annexes@) {
                None => res is None && final(self).info() == old(self).info()
                    && final(self).conditioned() == old(self).conditioned(),
                Some(annex) => {
                    &&& res is Some
                    &&& stmts_view(res->0@) == spec_state_machine_code(annex, old(self).info())
                    &&& final(self).info() == spec_info_after(annex, old(self).info())
                    &&& final(self).conditioned() == match annex.transitions {
                        Some(ts) => spec_dedup(spec_guarded_sources(ts@)),
                        None => old(self).conditioned(),
                    }
                },
            },
    {
        match self.find_behavior_annex(impl_) {
            Some(behavior_annex) => self.generate_state_machine_code(impl_, behavior_annex),
            None => None,
        }
    }
}


// ---------------------------------------------------------------------------
// What the recorded states answer
// ---------------------------------------------------------------------------

/// Whether some state of `states` declares the identifier `n`.
pub open spec fn declares(states: Seq<State>, n: Seq<char>) -> bool {
    exists|i: int, j: int|
        0 <= i < states.len() && 0 <= j < states[i].identifiers@.len()
            && #[trigger] states[i].identifiers@[j]@ == n
}

proof fn lemma_lookup_concat(info: Seq<(Seq<char>, bool)>, e: Seq<(Seq<char>, bool)>, n: Seq<char>)
    ensures
        spec_lookup(info + e, n) == match spec_lookup(e, n) {
            Some(b) => Some(b),
            None => spec_lookup(info, n),
        },
    decreases e.len(),
{
    if e.len() == 0 {
        assert(info + e =~= info);
    } else {
        assert((info + e).drop_last() =~= info + e.drop_last());
        lemma_lookup_concat(info, e.drop_last(), n);
    }
}

proof fn lemma_lookup_ids(ids: Seq<String>, b: bool, n: Seq<char>)
    ensures
        spec_lookup(ids.map_values(|s: String| (s@, b)), n) == if exists|j: int|
            0 <= j < ids.len() && #[trigger] ids[j]@ == n {
            Some(b)
        } else {
            None
        },
    decreases ids.len(),
{
    let m = ids.map_values(|s: String| (s@, b));
    if ids.len() > 0 {
        assert(m.drop_last() =~= ids.drop_last().map_values(|s: String| (s@, b)));
        lemma_lookup_ids(ids.drop_last(), b, n);
        if ids.last()@ != n {
            if exists|j: int| 0 <= j < ids.len() && #[trigger] ids[j]@ == n {
                let j = choose|j: int| 0 <= j < ids.len() && #[trigger] ids[j]@ == n;
                assert(ids.drop_last()[j]@ == n);
            }
            if exists|j: int| 0 <= j < ids.drop_last().len() && #[trigger] ids.drop_last()[j]@ == n {
                let j = choose|j: int| 0 <= j < ids.drop_last().len() && #[trigger] ids.drop_last()[j]@ == n;
                assert(ids[j]@ == n);
            }
        } else {
            assert(ids[ids.len() - 1]@ == n);
        }
    }
}

proof fn lemma_entries_undeclared(states: Seq<State>, n: Seq<char>)
    requires
        !declares(states, n),
    ensures
        spec_lookup(spec_state_entries(states), n) is None,
    decreases states.len(),
{
    if states.len() > 0 {
        let last = states.last();
        assert(!declares(states.drop_last(), n)) by {
            if declares(states.drop_last(), n) {
                let (i, j) = choose|i: int, j: int|
                    0 <= i < states.drop_last().len() && 0 <= j < states.drop_last()[i].identifiers@.len()
                        && #[trigger] states.drop_last()[i].identifiers@[j]@ == n;
                assert(states[i].identifiers@[j]@ == n);
            }
        }
        lemma_entries_undeclared(states.drop_last(), n);
        lemma_lookup_ids(last.identifiers@, spec_needs_continue(last), n);
        if exists|j: int| 0 <= j < last.identifiers@.len() && #[trigger] last.identifiers@[j]@ == n {
            let j = choose|j: int| 0 <= j < last.identifiers@.len() && #[trigger] last.identifiers@[j]@ == n;
            assert(states[states.len() - 1].identifiers@[j]@ == n);
        }
        lemma_lookup_concat(
            spec_state_entries(states.drop_last()),
            last.identifiers@.map_values(|s: String| (s@, spec_needs_continue(last))),
            n,
        );
    }
}

/// The state declared last decides: after the states are recorded, a
/// transition into an identifier of the last state goes on with the macro
/// step exactly when that state is neither `complete` nor `final`,
/// whatever was recorded before.
pub proof fn lemma_last_declaration_decides(
    info: Seq<(Seq<char>, bool)>,
    states: Seq<State>,
    j: int,
)
    requires
        states.len() > 0,
        0 <= j < states.last().identifiers@.len(),
    ensures
        spec_should_continue(
            info + spec_state_entries(states),
            states.last().identifiers@[j]@,
        ) == spec_needs_continue(states.last()),
{
    let last = states.last();
    let n = last.identifiers@[j]@;
    let tail = last.identifiers@.map_values(|s: String| (s@, spec_needs_continue(last)));
    lemma_lookup_ids(last.identifiers@, spec_needs_continue(last), n);
    assert(info + spec_state_entries(states) =~= (info + spec_state_entries(states.drop_last())) + tail);
    lemma_lookup_concat(info + spec_state_entries(states.drop_last()), tail, n);
}

/// Recording states leaves the answer for any other name as it was.
pub proof fn lemma_undeclared_unchanged(info: Seq<(Seq<char>, bool)>, states: Seq<State>, n: Seq<char>)
    requires
        !declares(states, n),
    ensures
        spec_should_continue(info + spec_state_entries(states), n) == spec_should_continue(info, n),
{
    lemma_entries_undeclared(states, n);
    lemma_lookup_concat(info, spec_state_entries(states), n);
}

/// Whether the state `st` lists the identifier `n`.
pub open spec fn lists_identifier(st: State, n: Seq<char>) -> bool {
    exists|j: int| 0 <= j < st.identifiers@.len() && #[trigger] st.identifiers@[j]@ == n
}

/// The last state of `states` that lists the identifier `n`, if any.
pub open spec fn spec_last_listing(states: Seq<State>, n: Seq<char>) -> Option<State>
    decreases states.len(),
{
    if states.len() == 0 {
        None
    } else if lists_identifier(states.last(), n) {
        Some(states.last())
    } else {
        spec_last_listing(states.drop_last(), n)
    }
}

/// A law of the recorded states: after `states` are recorded, whether a
/// transition into `n` continues is decided by the last of them that lists
/// `n` (it continues unless that state is `complete` or `final`); where none
/// lists `n`, the answer is what it was before.
pub proof fn lemma_should_continue_last_listing(info: Seq<(Seq<char>, bool)>, states: Seq<State>, n: Seq<char>)
    ensures
        spec_should_continue(info + spec_state_entries(states), n) == match spec_last_listing(states, n) {
            Some(st) => spec_needs_continue(st),
            None => spec_should_continue(info, n),
        },
    decreases states.len(),
{
    if states.len() == 0 {
        assert(info + spec_state_entries(states) =~= info);
    } else {
        let last = states.last();
        let tail = last.identifiers@.map_values(|s: String| (s@, spec_needs_continue(last)));
        assert(info + spec_state_entries(states) =~= (info + spec_state_entries(states.drop_last())) + tail);
        lemma_lookup_concat(info + spec_state_entries(states.drop_last()), tail, n);
        lemma_lookup_ids(last.identifiers@, spec_needs_continue(last), n);
        lemma_should_continue_last_listing(info, states.drop_last(), n);
    }
}

/// The Behavior Annex pieces of a thread's periodic code: before its loop,
/// the state variables, the state enum and the initial state; inside its
/// loop, the state machine's step. Both are empty where the implementation
/// has no Behavior Annex.
pub open spec fn spec_behavior_pieces(impl_: ComponentImplementation) -> (Seq<SpecStatement>, Seq<SpecStatement>) {
    match spec_find_behavior_annex(impl_.annexes@) {
        None => (Seq::empty(), Seq::empty()),
        Some(annex) => (
            (match annex.state_variables {
                Some(vs) => spec_state_variables(vs@),
                None => Seq::empty(),
            }) + (match annex.states {
                Some(states) => spec_state_enum(states@) + spec_initial_state_stmts(states@),
                None => Seq::empty(),
            }),
            match annex.transitions {
                Some(ts) => spec_state_machine_loop(ts@, spec_info_after(annex, Seq::empty())),
                None => Seq::empty(),
            },
        ),
    }
}

/// The Behavior Annex pieces of a thread implementation (see
/// `spec_behavior_pieces`), made by a fresh annex converter.
pub fn behavior_annex_pieces(impl_: &ComponentImplementation) -> (res: (Vec<Statement>, Vec<Statement>))
    ensures
        stmts_view(res.0@) == spec_behavior_pieces(*impl_).0,
        stmts_view(res.1@) == spec_behavior_pieces(*impl_).1,
{
    let mut conv = AnnexConverter::default();
    let mut prelude: Vec<Statement> = Vec::new();
    let mut step: Vec<Statement> = Vec::new();
    proof {
        lemma_views_empty();
    }
    match conv.find_behavior_annex(impl_) {
        None => (prelude, step),
        Some(behavior_annex) => {
            match &behavior_annex.state_variables {
                Some(state_vars) => {
                    let vars = conv.generate_state_variables(state_vars.as_slice());
                    append_stmts(&mut prelude, vars);
                },
                None => {},
            }
            let ghost part1 = stmts_view(prelude@);
            match &behavior_annex.states {
                Some(states) => {
                    conv.store_state_info(states.as_slice());
                    let e = conv.generate_state_enum(states.as_slice());
                    append_stmts(&mut prelude, e);
                    let init = conv.generate_initial_state(states.as_slice());
                    append_stmts(&mut prelude, init);
                },
                None => {},
            }
            proof {
                assert(stmts_view(prelude@) =~= part1 + match behavior_annex.states {
                    Some(states) => spec_state_enum(states@) + spec_initial_state_stmts(states@),
                    None => Seq::empty(),
                });
                assert(conv.info() == spec_info_after(*behavior_annex, Seq::empty()));
            }
            match &behavior_annex.transitions {
                Some(transitions) => {
                    step = conv.generate_state_machine_loop(transitions.as_slice());
                },
                None => {},
            }
            (prelude, step)
        },
    }
}

/// A law of a fresh annex converter (no state recorded yet) after
/// `store_state_info(states)`: `should_continue_state(n)` is false exactly
/// where the last state listing `n` is `complete` or `final`, and true where
/// no state lists `n`.
pub proof fn lemma_fresh_states_should_continue(states: Seq<State>, n: Seq<char>)
    ensures
        spec_should_continue(spec_state_entries(states), n) == match spec_last_listing(states, n) {
            Some(st) => spec_needs_continue(st),
            None => true,
        },
{
    lemma_should_continue_last_listing(Seq::empty(), states, n);
    assert(Seq::<(Seq<char>, bool)>::empty() + spec_state_entries(states) =~= spec_state_entries(states));
}

// ---------------------------------------------------------------------------
// Laws of the operators
// ---------------------------------------------------------------------------

/// A law of the Behavior Annex expressions: a relation `a op b` becomes the
/// Rust comparison of the converted operands with the operator of the same
/// meaning (`=` gives `==`, `/=` gives `!=`, `<` gives `<`, `<=` gives `<=`,
/// `>` gives `>`, `>=` gives `>=`); a relation without a comparison is its
/// left operand.
pub proof fn lemma_relation_operator(r: Relation)
    ensures
        match r.comparison {
            Some(c) => spec_relation(r) == SpecExpr::BinaryOp(
                Box::new(spec_simple_expression(r.left)),
                match c.operator {
                    RelationalOperator::Equal => ("=="@),
                    RelationalOperator::NotEqual => ("!="@),
                    RelationalOperator::LessThan => ("<"@),
                    RelationalOperator::LessThanOrEqual => ("<="@),
                    RelationalOperator::GreaterThan => (">"@),
                    RelationalOperator::GreaterThanOrEqual => (">="@),
                },
                Box::new(spec_simple_expression(c.right)),
            ),
            None => spec_relation(r) == spec_simple_expression(r.left),
        },
{
}

/// A law of the guard expressions: a binary operation becomes the Rust
/// binary operation of the converted operands with the operator of the same
/// meaning (`and` `&&`, `or` `||`, `=` `==`, `!=` `!=`, `<` `<`, `<=` `<=`,
/// `>` `>`, `>=` `>=`, `+` `+`, `-` `-`, `*` `*`, `/` `/`, `mod` `%`).
pub proof fn lemma_binary_operator(left: BasicExpression, operator: BinaryOperator, right: BasicExpression)
    ensures
        spec_basic_expression(
            BasicExpression::BinaryOp { left: Box::new(left), operator, right: Box::new(right) },
        ) == SpecExpr::BinaryOp(
            Box::new(spec_basic_expression(left)),
            match operator {
                BinaryOperator::And => ("&&"@),
                BinaryOperator::Or => ("||"@),
                BinaryOperator::Equal => ("=="@),
                BinaryOperator::NotEqual => ("!="@),
                BinaryOperator::LessThan => ("<"@),
                BinaryOperator::LessThanOrEqual => ("<="@),
                BinaryOperator::GreaterThan => (">"@),
                BinaryOperator::GreaterThanOrEqual => (">="@),
                BinaryOperator::Add => ("+"@),
                BinaryOperator::Subtract => ("-"@),
                BinaryOperator::Multiply => ("*"@),
                BinaryOperator::Divide => ("/"@),
                BinaryOperator::Modulo => ("%"@),
            },
            Box::new(spec_basic_expression(right)),
        ),
{
}

/// A law of the arithmetic and logical chains: each operation, taken from
/// the left, joins what comes before it and its right operand with the Rust
/// operator of the same meaning (`+` `+`, `-` `-`; `*` `*`, `/` `/`, `mod`
/// and `rem` `%`; `and` `&&`, `or` `||`, `xor` `^`).
pub proof fn lemma_chain_operators(
    acc: SpecExpr,
    adds: Seq<AdditiveOperation>,
    mults: Seq<MultiplicativeOperation>,
    logic: Seq<LogicalOperation>,
)
    ensures
        adds.len() > 0 ==> spec_additive_fold(acc, adds) == SpecExpr::BinaryOp(
            Box::new(spec_additive_fold(acc, adds.drop_last())),
            match adds.last().operator {
                AdditiveOperator::Add => ("+"@),
                AdditiveOperator::Subtract => ("-"@),
            },
            Box::new(spec_add_expression(adds.last().right)),
        ),
        mults.len() > 0 ==> spec_mult_fold(acc, mults) == SpecExpr::BinaryOp(
            Box::new(spec_mult_fold(acc, mults.drop_last())),
            match mults.last().operator {
                MultiplicativeOperator::Multiply => ("*"@),
                MultiplicativeOperator::Divide => ("/"@),
                MultiplicativeOperator::Modulo => ("%"@),
                MultiplicativeOperator::Remainder => ("%"@),
            },
            Box::new(spec_basic_expression(mults.last().right)),
        ),
        logic.len() > 0 ==> spec_logical_fold(acc, logic) == SpecExpr::BinaryOp(
            Box::new(spec_logical_fold(acc, logic.drop_last())),
            match logic.last().operator {
                LogicalOperator::And => ("&&"@),
                LogicalOperator::Or => ("||"@),
                LogicalOperator::Xor => ("^"@),
            },
            Box::new(spec_relation(logic.last().right)),
        ),
{
}

} // verus!
