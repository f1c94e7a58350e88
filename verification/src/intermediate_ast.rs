//! A small syntax tree of Rust code, which the AADL converters build and a
//! printer turns into source text.
//!
//! Each executable type has a specification counterpart (`Spec...`) in which
//! every `String` is replaced by its character sequence; `x@` maps a value to
//! that counterpart, and the converters' contracts are stated over it.

use vstd::prelude::*;
use crate::text::strings_view;

verus! {

/// A literal.  A floating-point literal keeps the text it was written with;
/// whoever prints or evaluates it reads that text as a float.
#[derive(Debug)]
pub enum Literal {
    Int(i64),
    Float(String),
    Str(String),
    Bool(bool),
    Char(char),
}

/// Whether a path is written with `::` (a namespace) or with `.` (a member).
#[derive(Debug, Clone, Copy, PartialEq, Eq, Structural)]
pub enum PathType {
    Namespace,
    Member,
}

/// Visibility of an item: `pub`, private, or none written.
#[derive(Debug, Clone, Copy, PartialEq, Eq, Structural)]
pub enum Visibility {
    Public,
    Private,
    Inherited,
}

#[derive(Debug)]
pub enum Type {
    Named(String),
    Generic(String, Vec<Type>),
    Unit,
    Path(Vec<String>),
    /// The referenced type, whether the reference is `mut`, whether it is written with a lifetime.
    Reference(Box<Type>, bool, bool),
    Array(Box<Type>, usize),
}

#[derive(Debug)]
pub struct Param {
    pub name: String,
    pub ty: Type,
}

#[derive(Debug)]
pub struct LetStmt {
    pub ifmut: bool,
    pub name: String,
    pub ty: Option<Type>,
    pub init: Option<Expr>,
}

#[derive(Debug)]
pub struct Block {
    pub stmts: Vec<Statement>,
    pub expr: Option<Box<Expr>>,
}

#[derive(Debug)]
pub struct MatchArm {
    pub pattern: String,
    pub guard: Option<Expr>,
    pub body: Block,
}

#[derive(Debug)]
pub enum Expr {
    Ident(String),
    Path(Vec<String>, PathType),
    Literal(Literal),
    Call(Box<Expr>, Vec<Expr>),
    MethodCall(Box<Expr>, String, Vec<Expr>),
    BinaryOp(Box<Expr>, String, Box<Expr>),
    UnaryOp(String, Box<Expr>),
    Assign(Box<Expr>, Box<Expr>),
    /// The referenced expression, whether the reference is `mut`, whether it is explicit.
    Reference(Box<Expr>, bool, bool),
    If { condition: Box<Expr>, then_branch: Block, else_branch: Option<Block> },
    IfLet { pattern: String, value: Box<Expr>, then_branch: Block, else_branch: Option<Block> },
    Block(Block),
    Loop(Box<Block>),
    Match { expr: Box<Expr>, arms: Vec<MatchArm> },
    Closure(Vec<String>, Box<Expr>),
    Index(Box<Expr>, Box<Expr>),
    Parenthesized(Box<Expr>),
    Unsafe(Box<Block>),
    /// `std::thread::Builder::new()` followed by the given builder calls.
    BuilderChain(Vec<BuilderMethod>),
}

/// One call in a thread builder chain.
#[derive(Debug)]
pub enum BuilderMethod {
    /// `.name(<text>)`, the text written as it stands.
    Named(String),
    /// `.spawn(<closure>)`, with `move` before the closure when `move_kw` holds.
    Spawn { closure: Box<Expr>, move_kw: bool },
}

#[derive(Debug)]
pub enum Statement {
    Let(LetStmt),
    Expr(Expr),
    Item(Box<Item>),
    Comment(String),
    Continue,
    Break,
}

#[derive(Debug)]
pub struct Variant {
    pub name: String,
    pub data: Option<Vec<Type>>,
    pub docs: Vec<String>,
}

#[derive(Debug)]
pub struct EnumDef {
    pub name: String,
    pub variants: Vec<Variant>,
    pub generics: Vec<String>,
    pub derives: Vec<String>,
    pub docs: Vec<String>,
    pub vis: Visibility,
}

#[derive(Debug)]
pub enum AttributeArg {
    Ident(String),
}

#[derive(Debug)]
pub struct Attribute {
    pub name: String,
    pub args: Vec<AttributeArg>,
}

/// A field of a generated struct.
#[derive(Debug)]
pub struct Field {
    pub name: String,
    pub ty: Type,
    pub docs: Vec<String>,
    pub attrs: Vec<Attribute>,
}

#[derive(Debug)]
pub struct FunctionDef {
    pub name: String,
    pub params: Vec<Param>,
    pub return_type: Type,
    pub body: Block,
    pub asyncness: bool,
    pub vis: Visibility,
    pub docs: Vec<String>,
    pub attrs: Vec<Attribute>,
}

#[derive(Debug)]
pub struct LazyStaticDef {
    pub name: String,
    pub ty: Type,
    pub init: Block,
    pub vis: Visibility,
    pub docs: Vec<String>,
}

#[derive(Debug)]
pub struct RustWith {
    pub path: Vec<String>,
    pub glob: bool,
}

#[derive(Debug)]
pub struct RustModule {
    pub name: String,
    pub docs: Vec<String>,
    pub items: Vec<Item>,
    pub attrs: Vec<Attribute>,
    pub vis: Visibility,
    pub withs: Vec<RustWith>,
}

/// What a `use` item brings in from its path.
#[derive(Debug)]
pub enum UseKind {
    /// `use <path>::{a, b, ...};`
    Nested(Vec<String>),
}

#[derive(Debug)]
pub struct UseStatement {
    pub path: Vec<String>,
    pub kind: UseKind,
}

/// A generated struct.
#[derive(Debug)]
pub struct StructDef {
    pub name: String,
    pub fields: Vec<Field>,
    pub properties: Vec<StruProperty>,
    pub generics: Vec<String>,
    pub derives: Vec<String>,
    pub docs: Vec<String>,
    pub vis: Visibility,
}

/// An item of an `impl` block.
#[derive(Debug)]
pub enum ImplItem {
    Method(FunctionDef),
}

/// An `impl` block, of a trait where `trait_impl` names one.
#[derive(Debug)]
pub struct ImplBlock {
    pub target: Type,
    pub generics: Vec<String>,
    pub items: Vec<ImplItem>,
    pub trait_impl: Option<Type>,
}

/// `type <name> = <target>;`
#[derive(Debug)]
pub struct TypeAlias {
    pub name: String,
    pub target: Type,
    pub vis: Visibility,
    pub docs: Vec<String>,
}

/// A generated union, with the parts of a struct.
#[derive(Debug)]
pub struct UnionDef {
    pub name: String,
    pub fields: Vec<Field>,
    pub properties: Vec<StruProperty>,
    pub generics: Vec<String>,
    pub derives: Vec<String>,
    pub docs: Vec<String>,
    pub vis: Visibility,
}

#[derive(Debug)]
pub enum Item {
    Mod(Box<RustModule>),
    Enum(EnumDef),
    Function(FunctionDef),
    LazyStatic(LazyStaticDef),
    Use(UseStatement),
    Struct(StructDef),
    Impl(ImplBlock),
    TypeAlias(TypeAlias),
    Union(UnionDef),
}

/// A property value as the generated code holds it.  A real value keeps the
/// decimal text that `f64`'s `Display` writes for it.
#[derive(Debug)]
pub enum StruPropertyValue {
    Boolean(bool),
    Integer(i64),
    Float(String),
    String(String),
    Duration(u64, String),
    Range(u64, u64, Option<String>),
    NoValue,
    Custom(String),
}

/// A property of a component, with its value as the generated code holds it.
#[derive(Debug)]
pub struct StruProperty {
    pub name: String,
    pub value: StruPropertyValue,
    pub docs: Vec<String>,
}

// ---------------------------------------------------------------------------
// Specification counterparts
// ---------------------------------------------------------------------------

pub enum SpecLiteral {
    Int(int),
    Float(Seq<char>),
    Str(Seq<char>),
    Bool(bool),
    Char(char),
}

pub enum SpecType {
    Named(Seq<char>),
    Generic(Seq<char>, Seq<SpecType>),
    Unit,
    Path(Seq<Seq<char>>),
    Reference(Box<SpecType>, bool, bool),
    Array(Box<SpecType>, nat),
}

pub struct SpecParam {
    pub name: Seq<char>,
    pub ty: SpecType,
}

pub struct SpecLetStmt {
    pub ifmut: bool,
    pub name: Seq<char>,
    pub ty: Option<SpecType>,
    pub init: Option<SpecExpr>,
}

pub struct SpecBlock {
    pub stmts: Seq<SpecStatement>,
    pub expr: Option<Box<SpecExpr>>,
}

pub struct SpecMatchArm {
    pub pattern: Seq<char>,
    pub guard: Option<SpecExpr>,
    pub body: SpecBlock,
}

pub enum SpecExpr {
    Ident(Seq<char>),
    Path(Seq<Seq<char>>, PathType),
    Literal(SpecLiteral),
    Call(Box<SpecExpr>, Seq<SpecExpr>),
    MethodCall(Box<SpecExpr>, Seq<char>, Seq<SpecExpr>),
    BinaryOp(Box<SpecExpr>, Seq<char>, Box<SpecExpr>),
    UnaryOp(Seq<char>, Box<SpecExpr>),
    Assign(Box<SpecExpr>, Box<SpecExpr>),
    Reference(Box<SpecExpr>, bool, bool),
    If { condition: Box<SpecExpr>, then_branch: SpecBlock, else_branch: Option<SpecBlock> },
    IfLet {
        pattern: Seq<char>,
        value: Box<SpecExpr>,
        then_branch: SpecBlock,
        else_branch: Option<SpecBlock>,
    },
    Block(SpecBlock),
    Loop(Box<SpecBlock>),
    Match { expr: Box<SpecExpr>, arms: Seq<SpecMatchArm> },
    Closure(Seq<Seq<char>>, Box<SpecExpr>),
    Index(Box<SpecExpr>, Box<SpecExpr>),
    Parenthesized(Box<SpecExpr>),
    Unsafe(Box<SpecBlock>),
    BuilderChain(Seq<SpecBuilderMethod>),
}

pub enum SpecBuilderMethod {
    Named(Seq<char>),
    Spawn { closure: Box<SpecExpr>, move_kw: bool },
}

pub enum SpecStatement {
    Let(SpecLetStmt),
    Expr(SpecExpr),
    Item(Box<SpecItem>),
    Comment(Seq<char>),
    Continue,
    Break,
}

pub struct SpecVariant {
    pub name: Seq<char>,
    pub data: Option<Seq<SpecType>>,
    pub docs: Seq<Seq<char>>,
}

pub struct SpecEnumDef {
    pub name: Seq<char>,
    pub variants: Seq<SpecVariant>,
    pub generics: Seq<Seq<char>>,
    pub derives: Seq<Seq<char>>,
    pub docs: Seq<Seq<char>>,
    pub vis: Visibility,
}

pub struct SpecAttribute {
    pub name: Seq<char>,
    pub args: Seq<Seq<char>>,
}

pub struct SpecField {
    pub name: Seq<char>,
    pub ty: SpecType,
    pub docs: Seq<Seq<char>>,
    pub attrs: Seq<SpecAttribute>,
}

pub struct SpecFunctionDef {
    pub name: Seq<char>,
    pub params: Seq<SpecParam>,
    pub return_type: SpecType,
    pub body: SpecBlock,
    pub asyncness: bool,
    pub vis: Visibility,
    pub docs: Seq<Seq<char>>,
    pub attrs: Seq<SpecAttribute>,
}

pub struct SpecLazyStaticDef {
    pub name: Seq<char>,
    pub ty: SpecType,
    pub init: SpecBlock,
    pub vis: Visibility,
    pub docs: Seq<Seq<char>>,
}

pub struct SpecRustWith {
    pub path: Seq<Seq<char>>,
    pub glob: bool,
}

pub struct SpecRustModule {
    pub name: Seq<char>,
    pub docs: Seq<Seq<char>>,
    pub items: Seq<SpecItem>,
    pub attrs: Seq<SpecAttribute>,
    pub vis: Visibility,
    pub withs: Seq<SpecRustWith>,
}

pub enum SpecUseKind {
    Nested(Seq<Seq<char>>),
}

pub struct SpecUseStatement {
    pub path: Seq<Seq<char>>,
    pub kind: SpecUseKind,
}

pub struct SpecStructDef {
    pub name: Seq<char>,
    pub fields: Seq<SpecField>,
    pub properties: Seq<SpecStruProperty>,
    pub generics: Seq<Seq<char>>,
    pub derives: Seq<Seq<char>>,
    pub docs: Seq<Seq<char>>,
    pub vis: Visibility,
}

pub enum SpecImplItem {
    Method(SpecFunctionDef),
}

pub struct SpecImplBlock {
    pub target: SpecType,
    pub generics: Seq<Seq<char>>,
    pub items: Seq<SpecImplItem>,
    pub trait_impl: Option<SpecType>,
}

pub enum SpecItem {
    Mod(Box<SpecRustModule>),
    Enum(SpecEnumDef),
    Function(SpecFunctionDef),
    LazyStatic(SpecLazyStaticDef),
    Use(SpecUseStatement),
    Struct(SpecStructDef),
    Impl(SpecImplBlock),
    TypeAlias(SpecTypeAlias),
    Union(SpecStructDef),
}

pub struct SpecTypeAlias {
    pub name: Seq<char>,
    pub target: SpecType,
    pub vis: Visibility,
    pub docs: Seq<Seq<char>>,
}

pub enum SpecPropertyValue {
    Boolean(bool),
    Integer(int),
    Float(Seq<char>),
    String(Seq<char>),
    Duration(nat, Seq<char>),
    Range(nat, nat, Option<Seq<char>>),
    NoValue,
    Custom(Seq<char>),
}

pub struct SpecStruProperty {
    pub name: Seq<char>,
    pub value: SpecPropertyValue,
    pub docs: Seq<Seq<char>>,
}

// ---------------------------------------------------------------------------
// Views
// ---------------------------------------------------------------------------

impl Literal {
    pub open spec fn view(&self) -> SpecLiteral {
        match self {
            Literal::Int(i) => SpecLiteral::Int(*i as int),
            Literal::Float(s) => SpecLiteral::Float(s@),
            Literal::Str(s) => SpecLiteral::Str(s@),
            Literal::Bool(b) => SpecLiteral::Bool(*b),
            Literal::Char(c) => SpecLiteral::Char(*c),
        }
    }
}

pub open spec fn opt_string_view(o: Option<String>) -> Option<Seq<char>> {
    match o {
        Some(s) => Some(s@),
        None => None,
    }
}

impl StruPropertyValue {
    pub open spec fn view(&self) -> SpecPropertyValue {
        match self {
            StruPropertyValue::Boolean(b) => SpecPropertyValue::Boolean(*b),
            StruPropertyValue::Integer(i) => SpecPropertyValue::Integer(*i as int),
            StruPropertyValue::Float(s) => SpecPropertyValue::Float(s@),
            StruPropertyValue::String(s) => SpecPropertyValue::String(s@),
            StruPropertyValue::Duration(v, u) => SpecPropertyValue::Duration(*v as nat, u@),
            StruPropertyValue::Range(a, b, u) => SpecPropertyValue::Range(
                *a as nat,
                *b as nat,
                opt_string_view(*u),
            ),
            StruPropertyValue::NoValue => SpecPropertyValue::NoValue,
            StruPropertyValue::Custom(s) => SpecPropertyValue::Custom(s@),
        }
    }
}

impl StruProperty {
    pub open spec fn view(&self) -> SpecStruProperty {
        SpecStruProperty { name: self.name@, value: self.value@, docs: strings_view(self.docs@) }
    }
}

pub open spec fn props_view(s: Seq<StruProperty>) -> Seq<SpecStruProperty> {
    s.map_values(|p: StruProperty| p@)
}

pub open spec fn types_view(s: Seq<Type>) -> Seq<SpecType>
    decreases s,
{
    if s.len() == 0 {
        Seq::empty()
    } else {
        types_view(s.drop_last()).push(s.last().view())
    }
}

impl Type {
    pub open spec fn view(&self) -> SpecType
        decreases self,
    {
        match self {
            Type::Named(s) => SpecType::Named(s@),
            Type::Generic(s, args) => SpecType::Generic(s@, types_view(args@)),
            Type::Unit => SpecType::Unit,
            Type::Path(p) => SpecType::Path(strings_view(p@)),
            Type::Reference(t, m, l) => SpecType::Reference(Box::new((**t).view()), *m, *l),
            Type::Array(t, n) => SpecType::Array(Box::new((**t).view()), *n as nat),
        }
    }
}

pub open spec fn opt_type_view(o: Option<Type>) -> Option<SpecType> {
    match o {
        Some(t) => Some(t.view()),
        None => None,
    }
}

impl Param {
    pub open spec fn view(&self) -> SpecParam {
        SpecParam { name: self.name@, ty: self.ty.view() }
    }
}

pub open spec fn params_view(s: Seq<Param>) -> Seq<SpecParam> {
    s.map_values(|p: Param| p.view())
}

pub open spec fn exprs_view(s: Seq<Expr>) -> Seq<SpecExpr>
    decreases s,
{
    if s.len() == 0 {
        Seq::empty()
    } else {
        exprs_view(s.drop_last()).push(s.last().view())
    }
}

pub open spec fn stmts_view(s: Seq<Statement>) -> Seq<SpecStatement>
    decreases s,
{
    if s.len() == 0 {
        Seq::empty()
    } else {
        stmts_view(s.drop_last()).push(s.last().view())
    }
}

pub open spec fn arms_view(s: Seq<MatchArm>) -> Seq<SpecMatchArm>
    decreases s,
{
    if s.len() == 0 {
        Seq::empty()
    } else {
        arms_view(s.drop_last()).push(s.last().view())
    }
}

pub open spec fn items_view(s: Seq<Item>) -> Seq<SpecItem>
    decreases s,
{
    if s.len() == 0 {
        Seq::empty()
    } else {
        items_view(s.drop_last()).push(s.last().view())
    }
}

pub open spec fn opt_block_view(o: Option<Block>) -> Option<SpecBlock>
    decreases o,
{
    match o {
        Some(b) => Some(b.view()),
        None => None,
    }
}

pub open spec fn opt_expr_view(o: Option<Expr>) -> Option<SpecExpr>
    decreases o,
{
    match o {
        Some(e) => Some(e.view()),
        None => None,
    }
}

impl Expr {
    pub open spec fn view(&self) -> SpecExpr
        decreases self,
    {
        match self {
            Expr::Ident(s) => SpecExpr::Ident(s@),
            Expr::Path(p, k) => SpecExpr::Path(strings_view(p@), *k),
            Expr::Literal(l) => SpecExpr::Literal(l.view()),
            Expr::Call(f, args) => SpecExpr::Call(Box::new((**f).view()), exprs_view(args@)),
            Expr::MethodCall(r, m, args) => SpecExpr::MethodCall(
                Box::new((**r).view()),
                m@,
                exprs_view(args@),
            ),
            Expr::BinaryOp(l, op, r) => SpecExpr::BinaryOp(
                Box::new((**l).view()),
                op@,
                Box::new((**r).view()),
            ),
            Expr::UnaryOp(op, e) => SpecExpr::UnaryOp(op@, Box::new((**e).view())),
            Expr::Assign(l, r) => SpecExpr::Assign(Box::new((**l).view()), Box::new((**r).view())),
            Expr::Reference(e, m, x) => SpecExpr::Reference(Box::new((**e).view()), *m, *x),
            Expr::If { condition, then_branch, else_branch } => SpecExpr::If {
                condition: Box::new((**condition).view()),
                then_branch: then_branch.view(),
                else_branch: opt_block_view(*else_branch),
            },
            Expr::IfLet { pattern, value, then_branch, else_branch } => SpecExpr::IfLet {
                pattern: pattern@,
                value: Box::new((**value).view()),
                then_branch: then_branch.view(),
                else_branch: opt_block_view(*else_branch),
            },
            Expr::Block(b) => SpecExpr::Block(b.view()),
            Expr::Loop(b) => SpecExpr::Loop(Box::new((**b).view())),
            Expr::Match { expr, arms } => SpecExpr::Match {
                expr: Box::new((**expr).view()),
                arms: arms_view(arms@),
            },
            Expr::Closure(ps, e) => SpecExpr::Closure(strings_view(ps@), Box::new((**e).view())),
            Expr::Index(a, i) => SpecExpr::Index(Box::new((**a).view()), Box::new((**i).view())),
            Expr::Parenthesized(e) => SpecExpr::Parenthesized(Box::new((**e).view())),
            Expr::Unsafe(b) => SpecExpr::Unsafe(Box::new((**b).view())),
            Expr::BuilderChain(ms) => SpecExpr::BuilderChain(builder_methods_view(ms@)),
        }
    }
}

pub open spec fn builder_methods_view(s: Seq<BuilderMethod>) -> Seq<SpecBuilderMethod>
    decreases s,
{
    if s.len() == 0 {
        Seq::empty()
    } else {
        builder_methods_view(s.drop_last()).push(s.last().view())
    }
}

impl BuilderMethod {
    pub open spec fn view(&self) -> SpecBuilderMethod
        decreases self,
    {
        match self {
            BuilderMethod::Named(n) => SpecBuilderMethod::Named(n@),
            BuilderMethod::Spawn { closure, move_kw } => SpecBuilderMethod::Spawn {
                closure: Box::new((**closure).view()),
                move_kw: *move_kw,
            },
        }
    }
}

impl Block {
    pub open spec fn view(&self) -> SpecBlock
        decreases self,
    {
        SpecBlock {
            stmts: stmts_view(self.stmts@),
            expr: match self.expr {
                Some(e) => Some(Box::new((*e).view())),
                None => None,
            },
        }
    }
}

impl MatchArm {
    pub open spec fn view(&self) -> SpecMatchArm
        decreases self,
    {
        SpecMatchArm {
            pattern: self.pattern@,
            guard: opt_expr_view(self.guard),
            body: self.body.view(),
        }
    }
}

impl LetStmt {
    pub open spec fn view(&self) -> SpecLetStmt
        decreases self,
    {
        SpecLetStmt {
            ifmut: self.ifmut,
            name: self.name@,
            ty: opt_type_view(self.ty),
            init: opt_expr_view(self.init),
        }
    }
}

impl Statement {
    pub open spec fn view(&self) -> SpecStatement
        decreases self,
    {
        match self {
            Statement::Let(l) => SpecStatement::Let(l.view()),
            Statement::Expr(e) => SpecStatement::Expr(e.view()),
            Statement::Item(i) => SpecStatement::Item(Box::new((**i).view())),
            Statement::Comment(c) => SpecStatement::Comment(c@),
            Statement::Continue => SpecStatement::Continue,
            Statement::Break => SpecStatement::Break,
        }
    }
}

pub open spec fn opt_types_view(o: Option<Vec<Type>>) -> Option<Seq<SpecType>> {
    match o {
        Some(v) => Some(types_view(v@)),
        None => None,
    }
}

impl Variant {
    pub open spec fn view(&self) -> SpecVariant {
        SpecVariant {
            name: self.name@,
            data: opt_types_view(self.data),
            docs: strings_view(self.docs@),
        }
    }
}

pub open spec fn variants_view(s: Seq<Variant>) -> Seq<SpecVariant> {
    s.map_values(|v: Variant| v.view())
}

impl EnumDef {
    pub open spec fn view(&self) -> SpecEnumDef {
        SpecEnumDef {
            name: self.name@,
            variants: variants_view(self.variants@),
            generics: strings_view(self.generics@),
            derives: strings_view(self.derives@),
            docs: strings_view(self.docs@),
            vis: self.vis,
        }
    }
}

impl AttributeArg {
    pub open spec fn view(&self) -> Seq<char> {
        match self {
            AttributeArg::Ident(s) => s@,
        }
    }
}

impl Attribute {
    pub open spec fn view(&self) -> SpecAttribute {
        SpecAttribute { name: self.name@, args: self.args@.map_values(|a: AttributeArg| a.view()) }
    }
}

pub open spec fn attrs_view(s: Seq<Attribute>) -> Seq<SpecAttribute> {
    s.map_values(|a: Attribute| a.view())
}

impl Field {
    pub open spec fn view(&self) -> SpecField {
        SpecField {
            name: self.name@,
            ty: self.ty.view(),
            docs: strings_view(self.docs@),
            attrs: attrs_view(self.attrs@),
        }
    }
}

pub open spec fn fields_view(s: Seq<Field>) -> Seq<SpecField> {
    s.map_values(|f: Field| f.view())
}

impl FunctionDef {
    pub open spec fn view(&self) -> SpecFunctionDef
        decreases self,
    {
        SpecFunctionDef {
            name: self.name@,
            params: params_view(self.params@),
            return_type: self.return_type.view(),
            body: self.body.view(),
            asyncness: self.asyncness,
            vis: self.vis,
            docs: strings_view(self.docs@),
            attrs: attrs_view(self.attrs@),
        }
    }
}

impl LazyStaticDef {
    pub open spec fn view(&self) -> SpecLazyStaticDef
        decreases self,
    {
        SpecLazyStaticDef {
            name: self.name@,
            ty: self.ty.view(),
            init: self.init.view(),
            vis: self.vis,
            docs: strings_view(self.docs@),
        }
    }
}

impl RustWith {
    pub open spec fn view(&self) -> SpecRustWith {
        SpecRustWith { path: strings_view(self.path@), glob: self.glob }
    }
}

impl RustModule {
    pub open spec fn view(&self) -> SpecRustModule
        decreases self,
    {
        SpecRustModule {
            name: self.name@,
            docs: strings_view(self.docs@),
            items: items_view(self.items@),
            attrs: attrs_view(self.attrs@),
            vis: self.vis,
            withs: self.withs@.map_values(|w: RustWith| w.view()),
        }
    }
}

impl UseStatement {
    pub open spec fn view(&self) -> SpecUseStatement {
        SpecUseStatement {
            path: strings_view(self.path@),
            kind: match self.kind {
                UseKind::Nested(names) => SpecUseKind::Nested(strings_view(names@)),
            },
        }
    }
}

impl Item {
    pub open spec fn view(&self) -> SpecItem
        decreases self,
    {
        match self {
            Item::Mod(m) => SpecItem::Mod(Box::new((**m).view())),
            Item::Enum(e) => SpecItem::Enum(e.view()),
            Item::Function(f) => SpecItem::Function(f.view()),
            Item::LazyStatic(l) => SpecItem::LazyStatic(l.view()),
            Item::Use(u) => SpecItem::Use(u.view()),
            Item::Struct(d) => SpecItem::Struct(d.view()),
            Item::Impl(b) => SpecItem::Impl(b.view()),
            Item::TypeAlias(a) => SpecItem::TypeAlias(a.view()),
            Item::Union(u) => SpecItem::Union(u.view()),
        }
    }
}

impl TypeAlias {
    pub open spec fn view(&self) -> SpecTypeAlias {
        SpecTypeAlias {
            name: self.name@,
            target: self.target.view(),
            vis: self.vis,
            docs: strings_view(self.docs@),
        }
    }
}

impl UnionDef {
    pub open spec fn view(&self) -> SpecStructDef {
        SpecStructDef {
            name: self.name@,
            fields: fields_view(self.fields@),
            properties: props_view(self.properties@),
            generics: strings_view(self.generics@),
            derives: strings_view(self.derives@),
            docs: strings_view(self.docs@),
            vis: self.vis,
        }
    }
}

impl StructDef {
    pub open spec fn view(&self) -> SpecStructDef {
        SpecStructDef {
            name: self.name@,
            fields: fields_view(self.fields@),
            properties: props_view(self.properties@),
            generics: strings_view(self.generics@),
            derives: strings_view(self.derives@),
            docs: strings_view(self.docs@),
            vis: self.vis,
        }
    }
}

impl ImplItem {
    pub open spec fn view(&self) -> SpecImplItem
        decreases self,
    {
        match self {
            ImplItem::Method(f) => SpecImplItem::Method(f.view()),
        }
    }
}

pub open spec fn impl_items_view(s: Seq<ImplItem>) -> Seq<SpecImplItem>
    decreases s,
{
    if s.len() == 0 {
        Seq::empty()
    } else {
        impl_items_view(s.drop_last()).push(s.last().view())
    }
}

impl ImplBlock {
    pub open spec fn view(&self) -> SpecImplBlock
        decreases self,
    {
        SpecImplBlock {
            target: self.target.view(),
            generics: strings_view(self.generics@),
            items: impl_items_view(self.items@),
            trait_impl: opt_type_view(self.trait_impl),
        }
    }
}

impl Clone for Type {
    #[verifier::loop_isolation(false)]
    fn clone(&self) -> (res: Self)
        ensures
            res@ == self@,
        decreases self,
    {
        match self {
            Type::Named(n) => Type::Named(n.clone()),
            Type::Generic(n, args) => {
                let mut out: Vec<Type> = Vec::new();
                let mut i: usize = 0;
                proof {
                    assert(args@.take(0) =~= Seq::<Type>::empty());
                    assert(types_view(Seq::<Type>::empty()) =~= Seq::<SpecType>::empty());
                    assert(out@ =~= Seq::<Type>::empty());
                }
                while i < args.len()
                    invariant
                        i <= args@.len(),
                        types_view(out@) == types_view(args@.take(i as int)),
                    decreases args@.len() - i,
                {
                    assert(decreases_to!(self => args@[i as int]));
                    let t = args[i].clone();
                    proof {
                        assert(args@.take(i + 1).drop_last() =~= args@.take(i as int));
                        assert(out@.push(t).drop_last() =~= out@);
                    }
                    out.push(t);
                    i = i + 1;
                }
                proof {
                    assert(args@.take(args@.len() as int) =~= args@);
                }
                Type::Generic(n.clone(), out)
            },
            Type::Unit => Type::Unit,
            Type::Path(p) => {
                let q = p.clone();
                proof {
                    assert(q@ =~= p@);
                }
                Type::Path(q)
            },
            Type::Reference(t, m, l) => Type::Reference(Box::new((**t).clone()), *m, *l),
            Type::Array(t, n) => Type::Array(Box::new((**t).clone()), *n),
        }
    }
}

impl StruPropertyValue {
    /// A copy of the value.
    pub fn copy(&self) -> (res: StruPropertyValue)
        ensures
            res@ == self@,
    {
        match self {
            StruPropertyValue::Boolean(b) => StruPropertyValue::Boolean(*b),
            StruPropertyValue::Integer(i) => StruPropertyValue::Integer(*i),
            StruPropertyValue::Float(t) => StruPropertyValue::Float(t.clone()),
            StruPropertyValue::String(t) => StruPropertyValue::String(t.clone()),
            StruPropertyValue::Duration(v, u) => StruPropertyValue::Duration(*v, u.clone()),
            StruPropertyValue::Range(a, b, u) => StruPropertyValue::Range(
                *a,
                *b,
                match u {
                    Some(t) => Some(t.clone()),
                    None => None,
                },
            ),
            StruPropertyValue::NoValue => StruPropertyValue::NoValue,
            StruPropertyValue::Custom(t) => StruPropertyValue::Custom(t.clone()),
        }
    }
}

// ---------------------------------------------------------------------------
// Facts about the sequence views
// ---------------------------------------------------------------------------

pub broadcast proof fn lemma_stmts_view_push(s: Seq<Statement>, x: Statement)
    ensures
        #[trigger] stmts_view(s.push(x)) == stmts_view(s).push(x@),
{
    assert(s.push(x).drop_last() =~= s);
}

pub proof fn lemma_stmts_view_concat(s: Seq<Statement>, t: Seq<Statement>)
    ensures
        stmts_view(s + t) == stmts_view(s) + stmts_view(t),
    decreases t.len(),
{
    if t.len() == 0 {
        assert(s + t =~= s);
        assert(stmts_view(s) + stmts_view(t) =~= stmts_view(s));
    } else {
        lemma_stmts_view_concat(s, t.drop_last());
        assert((s + t).drop_last() =~= s + t.drop_last());
        assert(stmts_view(s) + stmts_view(t) =~= (stmts_view(s) + stmts_view(t.drop_last())).push(
            t.last()@,
        ));
    }
}

pub proof fn lemma_exprs_view_concat(s: Seq<Expr>, t: Seq<Expr>)
    ensures
        exprs_view(s + t) == exprs_view(s) + exprs_view(t),
    decreases t.len(),
{
    if t.len() == 0 {
        assert(s + t =~= s);
        assert(exprs_view(s) + exprs_view(t) =~= exprs_view(s));
    } else {
        lemma_exprs_view_concat(s, t.drop_last());
        assert((s + t).drop_last() =~= s + t.drop_last());
        assert(exprs_view(s) + exprs_view(t) =~= (exprs_view(s) + exprs_view(t.drop_last())).push(
            t.last()@,
        ));
    }
}

pub proof fn lemma_items_view_concat(s: Seq<Item>, t: Seq<Item>)
    ensures
        items_view(s + t) == items_view(s) + items_view(t),
    decreases t.len(),
{
    if t.len() == 0 {
        assert(s + t =~= s);
        assert(items_view(s) + items_view(t) =~= items_view(s));
    } else {
        lemma_items_view_concat(s, t.drop_last());
        assert((s + t).drop_last() =~= s + t.drop_last());
        assert(items_view(s) + items_view(t) =~= (items_view(s) + items_view(t.drop_last())).push(
            t.last()@,
        ));
    }
}

/// The view of a sequence of types has its length and, index by index, the
/// views of its elements.
pub proof fn lemma_types_view_index(s: Seq<Type>)
    ensures
        types_view(s).len() == s.len(),
        forall|i: int| 0 <= i < s.len() ==> #[trigger] types_view(s)[i] == s[i]@,
    decreases s.len(),
{
    if s.len() > 0 {
        lemma_types_view_index(s.drop_last());
        assert forall|i: int| 0 <= i < s.len() implies #[trigger] types_view(s)[i] == s[i]@ by {
            if i < s.len() - 1 {
                assert(types_view(s)[i] == types_view(s.drop_last())[i]);
                assert(s.drop_last()[i] == s[i]);
            }
        }
    }
}

pub broadcast proof fn lemma_exprs_view_push(s: Seq<Expr>, x: Expr)
    ensures
        #[trigger] exprs_view(s.push(x)) == exprs_view(s).push(x@),
{
    assert(s.push(x).drop_last() =~= s);
}

pub broadcast proof fn lemma_arms_view_push(s: Seq<MatchArm>, x: MatchArm)
    ensures
        #[trigger] arms_view(s.push(x)) == arms_view(s).push(x@),
{
    assert(s.push(x).drop_last() =~= s);
}

pub broadcast proof fn lemma_items_view_push(s: Seq<Item>, x: Item)
    ensures
        #[trigger] items_view(s.push(x)) == items_view(s).push(x@),
{
    assert(s.push(x).drop_last() =~= s);
}

pub broadcast proof fn lemma_types_view_push(s: Seq<Type>, x: Type)
    ensures
        #[trigger] types_view(s.push(x)) == types_view(s).push(x@),
{
    assert(s.push(x).drop_last() =~= s);
}

pub proof fn lemma_views_empty()
    ensures
        stmts_view(Seq::<Statement>::empty()) == Seq::<SpecStatement>::empty(),
        exprs_view(Seq::<Expr>::empty()) == Seq::<SpecExpr>::empty(),
        arms_view(Seq::<MatchArm>::empty()) == Seq::<SpecMatchArm>::empty(),
        items_view(Seq::<Item>::empty()) == Seq::<SpecItem>::empty(),
        types_view(Seq::<Type>::empty()) == Seq::<SpecType>::empty(),
        strings_view(Seq::<String>::empty()) == Seq::<Seq<char>>::empty(),
{
    assert(strings_view(Seq::<String>::empty()) =~= Seq::<Seq<char>>::empty());
}

pub broadcast proof fn lemma_impl_items_view_push(s: Seq<ImplItem>, x: ImplItem)
    ensures
        #[trigger] impl_items_view(s.push(x)) == impl_items_view(s).push(x@),
{
    assert(s.push(x).drop_last() =~= s);
}

/// The view of a sequence of statements has its length.
pub broadcast proof fn lemma_stmts_view_len(s: Seq<Statement>)
    ensures
        #[trigger] stmts_view(s).len() == s.len(),
    decreases s.len(),
{
    if s.len() > 0 {
        lemma_stmts_view_len(s.drop_last());
    }
}

pub broadcast group group_view_laws {
    lemma_stmts_view_len,
    lemma_impl_items_view_push,
    lemma_stmts_view_push,
    lemma_exprs_view_push,
    lemma_arms_view_push,
    lemma_items_view_push,
    lemma_types_view_push,
}

// ---------------------------------------------------------------------------
// Builders: short constructors whose contracts give the view they build
// ---------------------------------------------------------------------------

pub open spec fn s_ident(s: Seq<char>) -> SpecExpr {
    SpecExpr::Ident(s)
}

pub open spec fn s_member(a: Seq<char>, b: Seq<char>) -> SpecExpr {
    SpecExpr::Path(seq![a, b], PathType::Member)
}

pub open spec fn s_ns2(a: Seq<char>, b: Seq<char>) -> SpecExpr {
    SpecExpr::Path(seq![a, b], PathType::Namespace)
}

pub open spec fn s_int(v: int) -> SpecExpr {
    SpecExpr::Literal(SpecLiteral::Int(v))
}

pub open spec fn s_bool(b: bool) -> SpecExpr {
    SpecExpr::Literal(SpecLiteral::Bool(b))
}

pub open spec fn s_float(t: Seq<char>) -> SpecExpr {
    SpecExpr::Literal(SpecLiteral::Float(t))
}

pub open spec fn s_str(t: Seq<char>) -> SpecExpr {
    SpecExpr::Literal(SpecLiteral::Str(t))
}

pub open spec fn s_mcall(recv: SpecExpr, m: Seq<char>, args: Seq<SpecExpr>) -> SpecExpr {
    SpecExpr::MethodCall(Box::new(recv), m, args)
}

pub open spec fn s_bin(l: SpecExpr, op: Seq<char>, r: SpecExpr) -> SpecExpr {
    SpecExpr::BinaryOp(Box::new(l), op, Box::new(r))
}

pub open spec fn s_un(op: Seq<char>, e: SpecExpr) -> SpecExpr {
    SpecExpr::UnaryOp(op, Box::new(e))
}

pub open spec fn s_assign(l: SpecExpr, r: SpecExpr) -> SpecExpr {
    SpecExpr::Assign(Box::new(l), Box::new(r))
}

pub open spec fn s_block(stmts: Seq<SpecStatement>) -> SpecBlock {
    SpecBlock { stmts, expr: None }
}

pub open spec fn s_let(
    ifmut: bool,
    name: Seq<char>,
    ty: Option<SpecType>,
    init: Option<SpecExpr>,
) -> SpecStatement {
    SpecStatement::Let(SpecLetStmt { ifmut, name, ty, init })
}

pub fn mk_ident(s: &str) -> (e: Expr)
    ensures
        e@ == s_ident(s@),
{
    Expr::Ident(s.to_string())
}

pub fn mk_member(a: &str, b: &str) -> (e: Expr)
    ensures
        e@ == s_member(a@, b@),
{
    let mut v: Vec<String> = Vec::new();
    v.push(a.to_string());
    v.push(b.to_string());
    assert(strings_view(v@) =~= seq![a@, b@]);
    Expr::Path(v, PathType::Member)
}

pub fn mk_ns2(a: &str, b: &str) -> (e: Expr)
    ensures
        e@ == s_ns2(a@, b@),
{
    let mut v: Vec<String> = Vec::new();
    v.push(a.to_string());
    v.push(b.to_string());
    assert(strings_view(v@) =~= seq![a@, b@]);
    Expr::Path(v, PathType::Namespace)
}

pub fn mk_ns3(a: &str, b: &str, c: &str) -> (e: Expr)
    ensures
        e@ == SpecExpr::Path(seq![a@, b@, c@], PathType::Namespace),
{
    let mut v: Vec<String> = Vec::new();
    v.push(a.to_string());
    v.push(b.to_string());
    v.push(c.to_string());
    assert(strings_view(v@) =~= seq![a@, b@, c@]);
    Expr::Path(v, PathType::Namespace)
}

pub fn mk_ns4(a: &str, b: &str, c: &str, d: &str) -> (e: Expr)
    ensures
        e@ == SpecExpr::Path(seq![a@, b@, c@, d@], PathType::Namespace),
{
    let mut v: Vec<String> = Vec::new();
    v.push(a.to_string());
    v.push(b.to_string());
    v.push(c.to_string());
    v.push(d.to_string());
    assert(strings_view(v@) =~= seq![a@, b@, c@, d@]);
    Expr::Path(v, PathType::Namespace)
}

pub fn mk_int(v: i64) -> (e: Expr)
    ensures
        e@ == s_int(v as int),
{
    Expr::Literal(Literal::Int(v))
}

pub fn mk_bool(b: bool) -> (e: Expr)
    ensures
        e@ == s_bool(b),
{
    Expr::Literal(Literal::Bool(b))
}

pub fn mk_mcall(recv: Expr, m: &str, args: Vec<Expr>) -> (e: Expr)
    ensures
        e@ == s_mcall(recv@, m@, exprs_view(args@)),
{
    Expr::MethodCall(Box::new(recv), m.to_string(), args)
}

pub fn mk_mcall0(recv: Expr, m: &str) -> (e: Expr)
    ensures
        e@ == s_mcall(recv@, m@, Seq::empty()),
{
    proof {
        lemma_views_empty();
    }
    Expr::MethodCall(Box::new(recv), m.to_string(), Vec::new())
}

pub fn mk_mcall1(recv: Expr, m: &str, arg: Expr) -> (e: Expr)
    ensures
        e@ == s_mcall(recv@, m@, seq![arg@]),
{
    let mut args: Vec<Expr> = Vec::new();
    let ghost a = arg@;
    args.push(arg);
    proof {
        lemma_views_empty();
        lemma_exprs_view_push(Seq::empty(), args@[0]);
        assert(Seq::<Expr>::empty().push(args@[0]) =~= args@);
        assert(Seq::<SpecExpr>::empty().push(a) =~= seq![a]);
    }
    Expr::MethodCall(Box::new(recv), m.to_string(), args)
}

pub fn mk_bin(l: Expr, op: &str, r: Expr) -> (e: Expr)
    ensures
        e@ == s_bin(l@, op@, r@),
{
    Expr::BinaryOp(Box::new(l), op.to_string(), Box::new(r))
}

pub fn mk_un(op: &str, x: Expr) -> (e: Expr)
    ensures
        e@ == s_un(op@, x@),
{
    Expr::UnaryOp(op.to_string(), Box::new(x))
}

pub fn mk_assign(l: Expr, r: Expr) -> (e: Expr)
    ensures
        e@ == s_assign(l@, r@),
{
    Expr::Assign(Box::new(l), Box::new(r))
}

pub fn mk_let(ifmut: bool, name: &str, ty: Option<Type>, init: Option<Expr>) -> (s: Statement)
    ensures
        s@ == s_let(ifmut, name@, opt_type_view(ty), opt_expr_view(init)),
{
    Statement::Let(LetStmt { ifmut, name: name.to_string(), ty, init })
}

pub fn mk_comment(c: &str) -> (s: Statement)
    ensures
        s@ == SpecStatement::Comment(c@),
{
    Statement::Comment(c.to_string())
}

/// A vector holding one statement.
pub fn vec1_stmt(s: Statement) -> (res: Vec<Statement>)
    ensures
        stmts_view(res@) == seq![s@],
{
    let mut v: Vec<Statement> = Vec::new();
    let ghost sv = s@;
    v.push(s);
    proof {
        lemma_views_empty();
        lemma_stmts_view_push(Seq::empty(), v@[0]);
        assert(v@ =~= Seq::<Statement>::empty().push(v@[0]));
        assert(Seq::<SpecStatement>::empty().push(sv) =~= seq![sv]);
    }
    v
}

/// A vector holding one expression.
pub fn vec1_expr(e: Expr) -> (res: Vec<Expr>)
    ensures
        exprs_view(res@) == seq![e@],
{
    let mut v: Vec<Expr> = Vec::new();
    let ghost ev = e@;
    v.push(e);
    proof {
        lemma_views_empty();
        lemma_exprs_view_push(Seq::empty(), v@[0]);
        assert(v@ =~= Seq::<Expr>::empty().push(v@[0]));
        assert(Seq::<SpecExpr>::empty().push(ev) =~= seq![ev]);
    }
    v
}

/// `<f>(<args>)`
pub fn mk_call(f: Expr, args: Vec<Expr>) -> (e: Expr)
    ensures
        e@ == SpecExpr::Call(Box::new(f@), exprs_view(args@)),
{
    Expr::Call(Box::new(f), args)
}

pub fn mk_block(stmts: Vec<Statement>) -> (b: Block)
    ensures
        b@ == s_block(stmts_view(stmts@)),
{
    Block { stmts, expr: None }
}

pub fn mk_named(s: &str) -> (t: Type)
    ensures
        t@ == SpecType::Named(s@),
{
    Type::Named(s.to_string())
}

/// Appends all of `other` to `v`, keeping the statement view in step.
pub fn append_stmts(v: &mut Vec<Statement>, other: Vec<Statement>)
    ensures
        stmts_view(final(v)@) == stmts_view(old(v)@) + stmts_view(other@),
        final(v)@ == old(v)@ + other@,
{
    let mut o = other;
    proof {
        lemma_stmts_view_concat(v@, o@);
    }
    v.append(&mut o);
}


/// `std::thread::Builder::new()` followed by the two calls `a` and `b`.
pub fn mk_builder_chain2(a: BuilderMethod, b: BuilderMethod) -> (e: Expr)
    ensures
        e@ == SpecExpr::BuilderChain(seq![a@, b@]),
{
    let ghost (av, bv) = (a@, b@);
    let mut v: Vec<BuilderMethod> = Vec::new();
    v.push(a);
    v.push(b);
    proof {
        let m = v@;
        assert(m.drop_last().drop_last() =~= Seq::<BuilderMethod>::empty());
        assert(builder_methods_view(m.drop_last()) == builder_methods_view(
            m.drop_last().drop_last(),
        ).push(av));
        assert(builder_methods_view(m) == builder_methods_view(m.drop_last()).push(bv));
        assert(builder_methods_view(m) =~= seq![av, bv]);
    }
    Expr::BuilderChain(v)
}


/// A vector holding two items.
pub fn vec2_items(a: Item, b: Item) -> (res: Vec<Item>)
    ensures
        items_view(res@) == seq![a@, b@],
{
    let ghost (av, bv) = (a@, b@);
    let mut v: Vec<Item> = Vec::new();
    v.push(a);
    v.push(b);
    proof {
        let m = v@;
        assert(m.drop_last().drop_last() =~= Seq::<Item>::empty());
        assert(items_view(m.drop_last()) == items_view(m.drop_last().drop_last()).push(av));
        assert(items_view(m) =~= seq![av, bv]);
    }
    v
}

/// A vector holding two items of an `impl` block.
pub fn vec2_impl_items(a: ImplItem, b: ImplItem) -> (res: Vec<ImplItem>)
    ensures
        impl_items_view(res@) == seq![a@, b@],
{
    let ghost (av, bv) = (a@, b@);
    let mut v: Vec<ImplItem> = Vec::new();
    v.push(a);
    v.push(b);
    proof {
        let m = v@;
        assert(m.drop_last().drop_last() =~= Seq::<ImplItem>::empty());
        assert(impl_items_view(m.drop_last()) == impl_items_view(m.drop_last().drop_last()).push(av));
        assert(impl_items_view(m) =~= seq![av, bv]);
    }
    v
}

} // verus!
