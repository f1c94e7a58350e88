//! The AADL syntax tree: packages, component types and implementations,
//! features, connections, properties and the Behavior Annex.

use vstd::prelude::*;
use crate::text::{seq_join, strings_view, join_strings, concat3};

verus! {


#[derive(Debug, Clone, PartialEq, Eq, Hash)]
pub struct PackageName(pub Vec<String>);


#[derive(Debug, Clone)]
pub enum VisibilityDeclaration {
    Import {
        packages: Vec<PackageName>,
        property_sets: Vec<String>,
    },
    Alias {
        new_name: String,
        original: QualifiedName,
        is_package: bool,
    },
    ImportAll(PackageName),
}

#[derive(Debug, Clone)]
pub struct QualifiedName {
    pub package_prefix: Option<PackageName>,
    pub identifier: String,
}

#[derive(Debug, Clone)]
pub struct PackageSection {
    pub is_public: bool,
    pub declarations: Vec<AadlDeclaration>,
}

#[derive(Debug, Clone)]
pub enum PropertyClause {
    ExplicitNone,
    Properties(Vec<Property>),
}

#[derive(Debug, Clone)]
pub struct Package {
    pub name: PackageName,
    pub visibility_decls: Vec<VisibilityDeclaration>,
    pub public_section: Option<PackageSection>,
    pub private_section: Option<PackageSection>,
    pub properties: PropertyClause,
}

#[derive(Debug, Clone)]
pub enum AadlDeclaration {
    ComponentType(ComponentType),
    ComponentTypeExtension(ComponentTypeExtension),
    ComponentImplementation(ComponentImplementation),
    ComponentImplementationExtension(ComponentImplementationExtension),
    AnnexLibrary(AnnexLibrary),
}

#[derive(Debug)]
pub enum ComponentRef<'a> {
    Type(&'a ComponentType),
    Impl(&'a ComponentImplementation),
}

#[derive(Debug, Clone)]
pub struct ComponentType {
    pub category: ComponentCategory,
    pub identifier: String,
    pub prototypes: PrototypeClause,
    pub features: FeatureClause,
    pub properties: PropertyClause,
    pub annexes: Vec<AnnexSubclause>,
}

#[derive(Debug, Clone)]
pub struct AnnexLibrary {}

#[derive(Debug, Clone)]
pub struct AnnexSubclause {
    pub identifier: AnnexIdentifier,
    pub content: AnnexContent,
}

#[derive(Debug, Clone, PartialEq, Eq, Structural)]
pub enum AnnexIdentifier {
    BehaviorSpecification,
    EMV2,
}

#[derive(Debug, Clone)]
pub enum AnnexContent {
    ExplicitNone,
    BehaviorAnnex(BehaviorAnnexContent),
}

#[derive(Debug, Clone)]
pub struct BehaviorAnnexContent {
    pub state_variables: Option<Vec<StateVariable>>,
    pub states: Option<Vec<State>>,
    pub transitions: Option<Vec<Transition>>,
}

#[derive(Debug, Clone)]
pub struct StateVariable {
    pub identifier: String,
    pub data_type: String,
    pub initial_value: Option<String>,
}

#[derive(Debug, Clone)]
pub struct State {
    pub identifiers: Vec<String>,
    pub modifiers: Vec<StateModifier>,
}

#[derive(Debug, Clone, PartialEq, Eq, Structural)]
pub enum StateModifier {
    Initial,
    Complete,
    Final,
}

#[derive(Debug, Clone)]
pub struct Transition {
    pub transition_identifier: Option<String>,
    pub priority: Option<String>,
    pub source_states: Vec<String>,
    pub destination_state: String,
    pub behavior_condition: Option<BehaviorCondition>,
    pub actions: Option<BehaviorActionBlock>,
}

#[derive(Debug, Clone)]
pub enum BehaviorCondition {
    Dispatch(DispatchCondition),
    Execute(DispatchConjunction),
}

#[derive(Debug, Clone)]
pub enum ExecuteCondition {
    LogicalExpression(BehaviorExpression),
    ActionBlockTimeoutCatch,
    Otherwise,
}

#[derive(Debug, Clone)]
pub struct DispatchCondition {
    pub trigger_condition: Option<DispatchTriggerCondition>,
    pub frozen_ports: Option<Vec<String>>,
}

#[derive(Debug, Clone)]
pub enum DispatchTriggerCondition {
    LogicalExpression(DispatchTriggerLogicalExpression),
    SubprogramAccess(String),
    Stop,
    CompletionTimeout,
    DispatchTimeout,
}

#[derive(Debug, Clone)]
pub struct DispatchTriggerLogicalExpression {
    pub dispatch_conjunctions: Vec<DispatchConjunction>,
}

#[derive(Debug, Clone)]
pub struct DispatchConjunction {
    pub not: bool,
    pub dispatch_triggers: Vec<DispatchTrigger>,
    /// A number that the triggering event ports are compared against, if the
    /// condition has one.
    pub number: Option<String>,
    /// Whether the condition reads `number < port` rather than a plain port test.
    pub less_than: bool,
}

#[derive(Debug, Clone)]
pub enum DispatchTrigger {
    InEventPort(String),
    InEventDataPort(String),
}

#[derive(Debug)]
pub struct BehaviorActionBlock {
    pub actions: BehaviorActions,
    pub timeout: Option<BehaviorTime>,
}

#[derive(Debug)]
pub enum BehaviorActions {
    Single(Box<BehaviorAction>),
    Sequence(BehaviorActionSequence),
    ActionSet(BehaviorActionSet),
}

#[derive(Debug)]
pub struct BehaviorActionSequence {
    pub actions: Vec<BehaviorAction>,
}

#[derive(Debug)]
pub struct BehaviorActionSet {
    pub actions: Vec<BehaviorAction>,
}

#[derive(Debug)]
pub enum BehaviorAction {
    Basic(BasicAction),
    Block(Box<BehaviorActionBlock>),
    If(IfStatement),
    For(ForStatement),
    Forall(ForallStatement),
    While(WhileStatement),
    DoUntil(DoUntilStatement),
}

#[derive(Debug)]
pub struct IfStatement {
    pub condition: BehaviorExpression,
    pub then_actions: Box<BehaviorActions>,
    pub elsif_branches: Vec<ElsifBranch>,
    pub else_actions: Option<Box<BehaviorActions>>,
}

#[derive(Debug)]
pub struct ElsifBranch {
    pub condition: BehaviorExpression,
    pub actions: Box<BehaviorActions>,
}

#[derive(Debug)]
pub struct ForStatement {
    pub element_identifier: String,
    pub data_classifier: String,
    pub element_values: ElementValues,
    pub actions: Box<BehaviorActions>,
}

#[derive(Debug)]
pub struct ForallStatement {
    pub element_identifier: String,
    pub data_classifier: String,
    pub element_values: ElementValues,
    pub actions: Box<BehaviorActions>,
}

#[derive(Debug)]
pub struct WhileStatement {
    pub condition: BehaviorExpression,
    pub actions: Box<BehaviorActions>,
}

#[derive(Debug)]
pub struct DoUntilStatement {
    pub actions: Box<BehaviorActions>,
    pub condition: BehaviorExpression,
}

#[derive(Debug, Clone)]
pub enum ElementValues {
    IntegerRange(IntegerRange),
    EventDataPort(String),
    ArrayDataComponent(String),
}

#[derive(Debug, Clone)]
pub enum BasicAction {
    Assignment(AssignmentAction),
    Communication(CommunicationAction),
    Timed(TimedAction),
}

#[derive(Debug, Clone)]
pub struct AssignmentAction {
    pub target: Target,
    pub value: AssignmentValue,
}

#[derive(Debug, Clone)]
pub enum AssignmentValue {
    Expression(ValueExpression),
    Any,
}

#[derive(Debug, Clone)]
pub enum CommunicationAction {
    PortCommunication(PortCommunication),
    DataAccessCommunication(DataAccessCommunication),
    Broadcast(Broadcast),
}

#[derive(Debug, Clone)]
pub enum PortCommunication {
    Output {
        port: String,
        value: Option<ValueExpression>,
    },
    InputReceive(String),
    InputCheck {
        port: String,
        target: Option<Target>,
    },
}

#[derive(Debug, Clone)]
pub enum DataAccessCommunication {
    RequiredDataAccess {
        name: String,
        direction: DataAccessDirection,
    },
    RequiredDataAccessSubprogram {
        data_access: String,
        subprogram: String,
        parameters: Option<SubprogramParameterList>,
    },
}

#[derive(Debug, Clone, PartialEq, Eq, Structural)]
pub enum DataAccessDirection {
    Input,
    Output,
}

#[derive(Debug, Clone)]
pub enum Broadcast {
    Input,
    Output,
}

#[derive(Debug, Clone)]
pub struct TimedAction {
    pub start_time: BehaviorTime,
    pub end_time: Option<BehaviorTime>,
}

#[derive(Debug, Clone)]
pub struct BehaviorTime {
    pub value: IntegerValue,
    pub unit: String,
}

#[derive(Debug, Clone)]
pub struct SubprogramParameterList {
    pub parameters: Vec<ParameterLabel>,
}

#[derive(Debug, Clone)]
pub enum ParameterLabel {
    In(ValueExpression),
    Out(Target),
}

#[derive(Debug, Clone)]
pub enum Target {
    LocalVariable(String),
    OutgoingPort(String),
    OutgoingSubprogramParameter(String),
    DataComponentReference(DataComponentReference),
}

#[derive(Debug, Clone)]
pub struct DataComponentReference {
    pub components: Vec<String>,
}

#[derive(Debug, Clone)]
pub struct Name {
    pub identifier: String,
    pub array_indices: Vec<ArrayIndex>,
}

#[derive(Debug, Clone)]
pub struct ArrayIndex {
    pub value: IntegerValue,
}

#[derive(Debug)]
pub enum Value {
    Variable(ValueVariable),
    Constant(ValueConstant),
    Expression(Box<ValueExpression>),
}

#[derive(Debug, Clone)]
pub enum ValueVariable {
    IncomingPort(String),
    IncomingPortCheck(String),
    IncomingSubprogramParameter(String),
    LocalVariable(String),
    DataComponentReference(DataComponentReference),
    PortCount(String),
    PortFresh(String),
}

#[derive(Debug, Clone)]
pub enum ValueConstant {
    Boolean(bool),
    Numeric(String),
    String(String),
    PropertyConstant(String),
    PropertyValue(String),
}

#[derive(Debug)]
pub struct ValueExpression {
    pub left: Relation,
    pub operations: Vec<LogicalOperation>,
}

#[derive(Debug)]
pub struct LogicalOperation {
    pub operator: LogicalOperator,
    pub right: Relation,
}

#[derive(Debug, Clone, PartialEq, Eq, Structural)]
pub enum LogicalOperator {
    And,
    Or,
    Xor,
}

#[derive(Debug)]
pub struct Relation {
    pub left: SimpleExpression,
    pub comparison: Option<Comparison>,
}

#[derive(Debug)]
pub struct Comparison {
    pub operator: RelationalOperator,
    pub right: SimpleExpression,
}

#[derive(Debug, Clone, PartialEq, Eq, Structural)]
pub enum RelationalOperator {
    Equal,
    NotEqual,
    LessThan,
    LessThanOrEqual,
    GreaterThan,
    GreaterThanOrEqual,
}

#[derive(Debug)]
pub struct SimpleExpression {
    pub sign: Option<UnaryAddingOperator>,
    pub left: Term,
    pub operations: Vec<AdditiveOperation>,
}

#[derive(Debug, Clone, PartialEq, Eq, Structural)]
pub enum UnaryAddingOperator {
    Plus,
    Minus,
}

#[derive(Debug, Clone)]
pub enum Action {
    Basic(BasicAction),
}

#[derive(Debug, Clone, PartialEq, Eq, Structural)]
pub enum PortQualifier {
    Count,
    Fresh,
}

#[derive(Debug, Clone, PartialEq, Eq, Structural)]
pub enum Quantifier {
    All,
    Exists,
}

#[derive(Debug)]
pub enum BasicExpression {
    NumericOrConstant(String),
    BehaviorVariable(String),
    LoopVariable(String),
    Port(String),
    PortWithQualifier {
        port: String,
        qualifier: PortQualifier,
    },
    DataAccess(String),
    Timeout(Box<BasicExpression>),
    DataSubcomponent(String),
    DataSubcomponentWithIndex {
        subcomponent: String,
        index: Box<BasicExpression>,
    },
    DataAccessWithSubcomponent {
        access: String,
        subcomponent: String,
    },
    DataSubcomponentWithSubcomponent {
        container: String,
        subcomponent: String,
    },
    DataClassifierSubprogram {
        classifier: String,
        subprogram: String,
        parameters: Option<Vec<BasicExpression>>,
    },
    DataClassifierSubprogramWithTimeout {
        classifier: String,
        subprogram: String,
        timeout: Box<BasicExpression>,
    },
    DataClassifierSubprogramWithParameter {
        classifier: String,
        subprogram: String,
        parameter: String,
        expression: Box<BasicExpression>,
    },
    Parenthesized(Box<BasicExpression>),
    Quantified {
        quantifier: Quantifier,
        identifier: String,
        range: Box<BasicExpression>,
        expression: Box<BasicExpression>,
    },
    BinaryOp {
        left: Box<BasicExpression>,
        operator: BinaryOperator,
        right: Box<BasicExpression>,
    },
    Not(Box<BasicExpression>),
}

#[derive(Debug, Clone, PartialEq, Eq, Structural)]
pub enum BinaryOperator {
    And,
    Or,

    Equal,
    NotEqual,
    LessThan,
    LessThanOrEqual,
    GreaterThan,
    GreaterThanOrEqual,

    Add,
    Subtract,
    Multiply,
    Divide,
    Modulo,
}

#[derive(Debug, Clone)]
pub struct BehaviorExpression {
    pub disjunctions: Vec<DisjunctionExpression>,
}

#[derive(Debug, Clone)]
pub struct DisjunctionExpression {
    pub not_conjunctions: Vec<NotConjunctionExpression>,
}

#[derive(Debug, Clone)]
pub struct NotConjunctionExpression {
    pub has_not: bool,
    pub conjunction: ConjunctionExpression,
}

#[derive(Debug, Clone)]
pub struct ConjunctionExpression {
    pub left: ArithmeticExpression,
    pub comparison: Option<ComparisonExpression>,
}

#[derive(Debug, Clone)]
pub struct ComparisonExpression {
    pub operator: ComparisonOperator,
    pub right: ArithmeticExpression,
}

#[derive(Debug, Clone, PartialEq, Eq, Structural)]
pub enum ComparisonOperator {
    LessThan,
    LessThanOrEqual,
    Equal,
    GreaterThan,
    GreaterThanOrEqual,
    NotEqual,
}

#[derive(Debug, Clone)]
pub struct ArithmeticExpression {
    pub left: AddExpression,
    pub operations: Vec<AdditiveOperation>,
}

#[derive(Debug, Clone)]
pub struct AdditiveOperation {
    pub operator: AdditiveOperator,
    pub right: AddExpression,
}

#[derive(Debug, Clone, PartialEq, Eq, Structural)]
pub enum AdditiveOperator {
    Add,
    Subtract,
}

#[derive(Debug, Clone)]
pub struct AddExpression {
    pub left: BasicExpression,
    pub operations: Vec<MultiplicativeOperation>,
}

#[derive(Debug, Clone)]
pub struct MultiplicativeOperation {
    pub operator: MultiplicativeOperator,
    pub right: BasicExpression,
}

#[derive(Debug, Clone, PartialEq, Eq, Structural)]
pub enum MultiplicativeOperator {
    Multiply,
    Divide,
    Modulo,
    Remainder,
}

#[derive(Debug)]
pub struct Term {
    pub left: Factor,
    pub operations: Vec<MultiplicativeOperation>,
}

#[derive(Debug)]
pub enum Factor {
    Value(Value),
    BinaryNumeric {
        left: Value,
        operator: BinaryNumericOperator,
        right: Value,
    },
    UnaryNumeric {
        operator: UnaryNumericOperator,
        value: Value,
    },
    UnaryBoolean {
        operator: UnaryBooleanOperator,
        value: Value,
    },
}

#[derive(Debug, Clone, PartialEq, Eq, Structural)]
pub enum BinaryNumericOperator {
    Power,
}

#[derive(Debug, Clone, PartialEq, Eq, Structural)]
pub enum UnaryNumericOperator {
    Abs,
}

#[derive(Debug, Clone, PartialEq, Eq, Structural)]
pub enum UnaryBooleanOperator {
    Not,
}

#[derive(Debug, Clone)]
pub struct IntegerRange {
    pub lower: IntegerValue,
    pub upper: IntegerValue,
}

#[derive(Debug, Clone)]
pub enum IntegerValue {
    Variable(String),
    Constant(String),
}

#[derive(Debug, Clone)]
pub enum PrototypeClause {
    Omitted,
    Empty,
    Items(Vec<Prototype>),
}

#[derive(Debug, Clone)]
pub enum FeatureClause {
    Omitted,
    Empty,
    Items(Vec<Feature>),
}

#[derive(Debug, Clone)]
pub struct ComponentTypeExtension {
    pub category: ComponentCategory,
    pub identifier: String,
    pub extends: UniqueComponentReference,
    pub prototype_bindings: Option<PrototypeBindings>,
    pub prototypes: PrototypeClause,
    pub features: FeatureClause,
    pub properties: PropertyClause,
    pub annexes: Vec<AnnexSubclause>,
}

#[derive(Debug, Clone, PartialEq, Eq, Structural)]
pub enum ComponentCategory {
    Abstract,
    Data,
    Subprogram,
    SubprogramGroup,
    Thread,
    ThreadGroup,
    Process,
    Memory,
    Processor,
    Bus,
    Device,
    VirtualProcessor,
    VirtualBus,
    System,
}

#[derive(Debug, Clone)]
pub struct UniqueComponentReference {
    pub package_prefix: Option<PackageName>,
    pub identifier: String,
}

#[derive(Debug, Clone)]
pub struct ComponentImplementation {
    pub category: ComponentCategory,
    pub name: ImplementationName,
    pub prototype_bindings: Option<PrototypeBindings>,
    pub prototypes: PrototypeClause,
    pub subcomponents: SubcomponentClause,
    pub calls: CallSequenceClause,
    pub connections: ConnectionClause,
    pub properties: PropertyClause,
    pub annexes: Vec<AnnexSubclause>,
}

#[derive(Debug, Clone, PartialEq, Eq, Hash)]
pub struct ImplementationName {
    pub type_identifier: String,
    pub implementation_identifier: String,
}


#[derive(Debug, Clone)]
pub struct ComponentImplementationExtension {
    pub category: ComponentCategory,
    pub name: ImplementationName,

    pub extends: UniqueImplementationReference,

    pub prototype_bindings: Option<PrototypeBindings>,
    pub prototypes: PrototypeClause,
    pub subcomponents: SubcomponentClause,
    pub calls: CallSequenceClause,
    pub connections: ConnectionClause,
    pub properties: PropertyClause,
    pub annexes: Vec<AnnexSubclause>,
}

#[derive(Debug, Clone)]
pub struct UniqueImplementationReference {
    pub package_prefix: Option<PackageName>,
    pub implementation_name: ImplementationName,
}

#[derive(Debug, Clone)]
pub enum SubcomponentClause {
    Omitted,
    Empty,
    Items(Vec<Subcomponent>),
    Refinements(Vec<SubcomponentRefinement>),
}

#[derive(Debug, Clone)]
pub enum CallSequenceClause {
    Omitted,
    Empty,
    Items(Vec<CallSequence>),
}

#[derive(Debug, Clone)]
pub enum ConnectionClause {
    Omitted,
    Empty,
    Items(Vec<Connection>),
    Refinements(Vec<ConnectionRefinement>),
}

#[derive(Debug, Clone)]
pub struct ConnectionRefinement {
    pub original_name: String,
    pub refinement: Connection,
}

#[derive(Debug, Clone)]
pub struct Subcomponent {
    pub identifier: String,
    pub category: ComponentCategory,
    pub classifier: SubcomponentClassifier,
    pub array_spec: Option<ArraySpec>,
    pub properties: Vec<Property>,
}
#[derive(Debug, Clone)]
pub enum SubcomponentClassifier {
    ClassifierReference(UniqueComponentClassifierReference),
    Prototype(String),
}
#[derive(Debug, Clone)]
pub enum UniqueComponentClassifierReference {
    Type(UniqueImplementationReference),
    Implementation(UniqueImplementationReference),
}

#[derive(Debug, Clone)]
pub struct SubcomponentRefinement {
    pub identifier: String,
    pub category: ComponentCategory,
    pub classifier: Option<SubcomponentClassifier>,
    pub array_spec: Option<ArraySpec>,
    pub properties: Vec<Property>,
}

#[derive(Debug, Clone)]
pub struct ArraySpec {
    pub dimensions: Vec<ArrayDimension>,
    pub element_implementations: Option<Vec<ArrayElementImplementation>>,
}
#[derive(Debug, Clone)]
pub struct ArrayDimension {
    pub size: Option<ArrayDimensionSize>,
}

#[derive(Debug, Clone)]
pub enum ArrayDimensionSize {
    Fixed(u32),
    PropertyReference(String),
}

#[derive(Debug, Clone)]
pub struct ArrayElementImplementation {
    pub implementation: UniqueImplementationReference,
    pub prototype_bindings: Option<PrototypeBindings>,
}

#[derive(Debug, Clone)]
pub enum Prototype {
    Component(ComponentPrototype),
    FeatureGroup(FeatureGroupPrototype),
    Feature(FeaturePrototype),
}

#[derive(Debug, Clone)]
pub struct PrototypeDeclaration {
    pub identifier: String,
    pub prototype: Prototype,
    pub properties: Vec<PrototypePropertyAssociation>,
}

#[derive(Debug, Clone)]
pub struct ComponentPrototype {
    pub category: ComponentCategory,
    pub classifier: Option<UniqueComponentClassifierReference>,
    pub is_array: bool,
}

#[derive(Debug, Clone)]
pub struct FeatureGroupPrototype {
    pub classifier: Option<UniqueFeatureGroupTypeReference>,
}
#[derive(Debug, Clone)]
pub struct UniqueFeatureGroupTypeReference {
    pub package_prefix: Option<PackageName>,

    pub identifier: String,
}

#[derive(Debug, Clone)]
pub struct FeaturePrototype {
    pub direction: Option<PortDirection>,
    pub classifier: Option<UniqueComponentClassifierReference>,
}

#[derive(Debug, Clone)]
pub struct PrototypeRefinement {
    pub identifier: String,
    pub prototype: Prototype,
    pub properties: Vec<PrototypePropertyAssociation>,
}

#[derive(Debug)]
pub struct PrototypeBindings {
    pub bindings: Vec<PrototypeBinding>,
}

#[derive(Debug)]
pub struct PrototypeBinding {
    pub identifier: String,
    pub actual: PrototypeActual,
}

#[derive(Debug)]
pub enum PrototypeActual {
    Component(ComponentPrototypeActual),
    ComponentList(Vec<ComponentPrototypeActual>),
    FeatureGroup(FeatureGroupPrototypeActual),
    Feature(FeaturePrototypeActual),
}

#[derive(Debug)]
pub struct ComponentPrototypeActual {
    pub category: ComponentCategory,
    pub reference: Option<ComponentPrototypeReference>,
    pub bindings: Option<PrototypeBindings>,
}

#[derive(Debug, Clone)]
pub enum ComponentPrototypeReference {
    Classifier(UniqueComponentClassifierReference),
    Prototype(String),
}

#[derive(Debug)]
pub enum FeatureGroupPrototypeActual {
    Classifier {
        reference: UniqueFeatureGroupTypeReference,
        bindings: Option<PrototypeBindings>,
    },
    Prototype(String),
}

#[derive(Debug, Clone)]
pub enum FeaturePrototypeActual {
    Port {
        direction: PortDirection,
        port_type: PortType,
        classifier: Option<UniqueComponentClassifierReference>,
    },
    Access {
        access_type: AccessDirection,
        connection_type: AccessConnectionType,
        classifier: Option<UniqueComponentClassifierReference>,
    },
    Prototype(String),
}

#[derive(Debug, Clone, Copy, PartialEq, Eq, Structural)]
pub enum PortDirection {
    In,
    Out,
    InOut,
}

#[derive(Debug, Clone, Copy, PartialEq, Eq, Structural)]
pub enum AccessDirection {
    Requires,
    Provides,
}

#[derive(Debug, Clone, Copy, PartialEq, Eq, Structural)]
pub enum AccessConnectionType {
    Bus,
    VirtualBus,
    Data,
    SubprogramGroup,
    Subprogram,
}

#[derive(Debug, Clone)]
pub struct PrototypePropertyAssociation {
    pub name: String,
    pub value: PropertyValue,
    pub applies_to: Option<Vec<String>>,
}

#[derive(Debug, Clone)]
pub struct CallSequence {
    pub identifier: String,

    pub calls: Vec<SubprogramCall>,

    pub properties: Vec<Property>,

    pub in_modes: Option<Vec<String>>,
}

#[derive(Debug, Clone)]
pub struct SubprogramCall {
    pub identifier: String,

    pub called: CalledSubprogram,

    pub properties: Vec<Property>,
}

#[derive(Debug, Clone)]
pub enum CalledSubprogram {
    Classifier(UniqueComponentClassifierReference),
}

#[derive(Debug, Clone)]
pub enum Feature {

    Port(PortSpec),
    SubcomponentAccess(SubcomponentAccessSpec),

}

#[derive(Debug, Clone)]
pub enum PortType {
    Data {
        classifier: Option<PortDataTypeReference>,
    },
    EventData {
        classifier: Option<PortDataTypeReference>,
    },
    Event,
}

#[derive(Debug, Clone)]
pub enum PortDataTypeReference {
    Classifier(UniqueComponentClassifierReference),
    Prototype(String),
}
#[derive(Debug, Clone)]
pub struct PortSpec {
    pub identifier: String,
    pub direction: PortDirection,
    pub port_type: PortType,
}

#[derive(Debug, Clone)]
pub enum SubcomponentAccessSpec {
    Data(DataAccessSpec),
    Subprogram(SubprogramAccessSpec),
}

#[derive(Debug, Clone)]
pub struct DataAccessSpec {
    pub identifier: String,
    pub direction: AccessDirection,
    pub classifier: Option<DataAccessReference>,
}

#[derive(Debug, Clone)]
pub enum DataAccessReference {
    Classifier(UniqueComponentClassifierReference),
    Prototype(String),
}

#[derive(Debug, Clone)]
pub struct SubprogramAccessSpec {
    pub identifier: String,
    pub direction: AccessDirection,
    pub classifier: Option<SubprogramAccessReference>,
}

#[derive(Debug, Clone)]
pub enum SubprogramAccessReference {
    Classifier(UniqueComponentClassifierReference),
    Prototype(String),
}

#[derive(Debug, Clone)]
pub enum Connection {
    Port(PortConnection),

    Parameter(ParameterConnection),
    Access(AccessConnection),
}

#[derive(Debug, Clone, Copy, PartialEq, Eq, Structural)]
pub enum ConnectionSymbol {
    Direct,
    Didirect,
}

#[derive(Debug, Clone)]
pub struct PortConnection {
    /// The connection's name in the model; the generated channel is named
    /// after it.
    pub identifier: String,
    pub source: PortEndpoint,
    pub destination: PortEndpoint,
    pub connection_direction: ConnectionSymbol,
}
#[derive(Debug, Clone)]
pub enum PortEndpoint {
    ComponentPort(String),

    SubcomponentPort { subcomponent: String, port: String },

    FeatureGroupPort {
        feature_group: String,
        element: String,
    },

    AggregateDataElement { port: String, data_element: String },

    RequiresDataAccess(String),

    DataSubcomponent(String),

    SubcomponentDataAccess {
        subcomponent: String,
        access: String,
    },

    FeatureGroupDataAccess {
        feature_group: String,
        element: String,
    },

    NestedDataAccess { container: String, element: String },

    ProcessorPort {
        processor: Option<String>,
        port: String,
    },

    InternalEvent {
        self_ref: bool, // 是否显式使用"self."
        identifier: String,
    },
}

#[derive(Debug, Clone)]
pub struct ParameterConnection {
    pub source: ParameterEndpoint,
    pub destination: ParameterEndpoint,
    pub connection_direction: ConnectionSymbol,
}

#[derive(Debug, Clone)]
pub struct AccessConnection {
    pub source: AccessEndpoint,
    pub destination: AccessEndpoint,
    pub connection_direction: ConnectionSymbol,
}

#[derive(Debug, Clone)]
pub enum AccessEndpoint {
    ComponentAccess(String),
    SubcomponentAccess { subcomponent: String, access: String },
}

#[derive(Debug, Clone)]
pub enum ParameterEndpoint {
    ComponentParameter {
        parameter: String,
        data_subcomponent: Option<String>,
    },

    SubprogramCallParameter {
        call_identifier: String,
        parameter: String,
    },

    ThreadPort {
        port: String,
        data_subcomponent: Option<String>,
    },

    DataSubcomponent(String),

    RequiresDataAccess(String),

    FeatureGroupDataAccess {
        feature_group: String,
        element: String,
    },

    FeatureGroupElement {
        feature_group: String,
        element: String,
    },
}

#[derive(Debug, Clone)]
pub enum Property {
    BasicProperty(BasicPropertyAssociation),
    SubcomponentProperty(BasicPropertyAssociation),
    CallSequenceProperty(BasicPropertyAssociation),
}

#[derive(Debug, Clone)]
pub struct BasicPropertyAssociation {
    pub identifier: PropertyIdentifier,

    pub operator: PropertyOperator,

    pub is_constant: bool,

    pub value: PropertyValue,
}
#[derive(Debug, Clone)]
pub struct PropertyIdentifier {
    pub property_set: Option<String>,
    pub name: String,
}
#[derive(Debug, Clone, Copy, PartialEq, Eq, Structural)]
pub enum PropertyOperator {
    Assign,
    Append,
}

#[derive(Debug, Clone)]
pub enum PropertyValue {
    Single(PropertyExpression),
    List(Vec<PropertyListElement>),
}

#[derive(Debug)]
pub enum PropertyListElement {
    Value(PropertyExpression),
    NestedList(Vec<PropertyListElement>),
}

#[derive(Debug, Clone)]
pub enum PropertyExpression {
    Boolean(BooleanTerm),
    Real(SignedRealOrConstant),
    Integer(SignedIntergerOrConstant),
    String(StringTerm),

    IntegerRange(IntegerRangeTerm),

    ComponentClassifier(ComponentClassifierTerm),
    Reference(ReferenceTerm),
    Apply(ApplyTerm),
}

#[derive(Debug, Clone)]
pub struct PropertyConstantTerm {
    pub property_set: Option<String>,

    pub name: String,
}

#[derive(Debug, Clone)]
pub enum BooleanTerm {
    Literal(bool),
    Constant(PropertyConstantTerm),
}

#[derive(Debug, Clone, Copy, PartialEq, Eq, Structural)]
pub enum Sign {
    Plus,
    Minus,
}

#[derive(Debug, Clone)]
pub enum SignedRealOrConstant {
    Real(SignedReal),

    Constant {
        sign: Option<Sign>,
        constant: PropertyConstantTerm,
    },
}

#[derive(Debug, Clone)]
pub struct SignedReal {
    pub sign: Option<Sign>,

    /// The real literal as written in the model (for instance `2.5` or
    /// `1.0e3`); a consumer that needs the number parses it as a float.
    pub value: String,

    pub unit: Option<String>,
}

#[derive(Debug, Clone)]
pub enum SignedIntergerOrConstant {
    Real(SignedInteger),

    Constant {
        sign: Option<Sign>,
        constant: PropertyConstantTerm,
    },
}

#[derive(Debug, Clone)]
pub struct SignedInteger {
    pub sign: Option<Sign>,

    pub value: i64,

    pub unit: Option<String>,
}
#[derive(Debug, Clone)]
pub enum StringTerm {
    Literal(String),

    Constant(PropertyConstantTerm),
}

#[derive(Debug, Clone)]
pub struct IntegerRangeTerm {
    pub lower: StringWithUnit,
    pub upper: StringWithUnit,
}

#[derive(Debug, Clone)]
pub struct StringWithUnit {
    pub value: String,        // 例如 "10"
    pub unit: Option<String>, // 例如 "KByte"
}

#[derive(Debug, Clone)]
pub struct ReferenceTerm {
    pub identifier: String,
    pub applies_to: Option<String>,
}

#[derive(Debug, Clone)]
pub struct ComponentClassifierTerm {
    pub unique_component_classifier_reference: UniqueComponentClassifierReference,
}
#[derive(Debug, Clone)]
pub struct ApplyTerm {
    pub number: String,
    pub applies_to: String,
}

impl PackageName {
    /// The characters of the package name: its identifiers joined by `::`.
    pub open spec fn spec_to_string(&self) -> Seq<char> {
        seq_join(strings_view(self.0@), "::"@)
    }

    /// The package name with its identifiers joined by `::`.
    pub fn to_string(&self) -> (res: String)
        ensures
            res@ == self.spec_to_string(),
    {
        join_strings(&self.0, "::")
    }
}

impl ImplementationName {
    /// The characters of `type_identifier.implementation_identifier`.
    pub open spec fn spec_to_string(&self) -> Seq<char> {
        self.type_identifier@ + "."@ + self.implementation_identifier@
    }

    /// The implementation name written `type_identifier.implementation_identifier`.
    pub fn to_string(&self) -> (res: String)
        ensures
            res@ == self.spec_to_string(),
    {
        concat3(self.type_identifier.as_str(), ".", self.implementation_identifier.as_str())
    }
}

impl Clone for ValueExpression {
    fn clone(&self) -> Self
        decreases self,
    {
        let mut operations: Vec<LogicalOperation> = Vec::new();
        let mut i: usize = 0;
        while i < self.operations.len()
            invariant
                i <= self.operations.len(),
            decreases self.operations.len() - i,
        {
            assert(decreases_to!(self => self.operations@[i as int]));
            operations.push(self.operations[i].clone());
            i = i + 1;
        }
        ValueExpression { left: self.left.clone(), operations }
    }
}

impl Clone for LogicalOperation {
    fn clone(&self) -> Self
        decreases self,
    {
        LogicalOperation { operator: self.operator.clone(), right: self.right.clone() }
    }
}

impl Clone for Relation {
    fn clone(&self) -> Self
        decreases self,
    {
        let comparison = match &self.comparison {
            Some(c) => Some(c.clone()),
            None => None,
        };
        Relation { left: self.left.clone(), comparison }
    }
}

impl Clone for Comparison {
    fn clone(&self) -> Self
        decreases self,
    {
        Comparison { operator: self.operator.clone(), right: self.right.clone() }
    }
}

impl Clone for SimpleExpression {
    fn clone(&self) -> Self
        decreases self,
    {
        SimpleExpression {
            sign: self.sign.clone(),
            left: self.left.clone(),
            operations: self.operations.clone(),
        }
    }
}

impl Clone for Term {
    fn clone(&self) -> Self
        decreases self,
    {
        Term { left: self.left.clone(), operations: self.operations.clone() }
    }
}

impl Clone for Factor {
    fn clone(&self) -> Self
        decreases self,
    {
        match self {
            Factor::Value(v) => Factor::Value(v.clone()),
            Factor::BinaryNumeric { left, operator, right } => Factor::BinaryNumeric {
                left: left.clone(),
                operator: operator.clone(),
                right: right.clone(),
            },
            Factor::UnaryNumeric { operator, value } => Factor::UnaryNumeric {
                operator: operator.clone(),
                value: value.clone(),
            },
            Factor::UnaryBoolean { operator, value } => Factor::UnaryBoolean {
                operator: operator.clone(),
                value: value.clone(),
            },
        }
    }
}

impl Clone for Value {
    fn clone(&self) -> Self
        decreases self,
    {
        match self {
            Value::Variable(v) => Value::Variable(v.clone()),
            Value::Constant(c) => Value::Constant(c.clone()),
            Value::Expression(e) => Value::Expression(Box::new((**e).clone())),
        }
    }
}

impl Clone for BasicExpression {
    #[verifier::loop_isolation(false)]
    fn clone(&self) -> Self
        decreases self,
    {
        match self {
            BasicExpression::NumericOrConstant(s) => BasicExpression::NumericOrConstant(s.clone()),
            BasicExpression::BehaviorVariable(s) => BasicExpression::BehaviorVariable(s.clone()),
            BasicExpression::LoopVariable(s) => BasicExpression::LoopVariable(s.clone()),
            BasicExpression::Port(s) => BasicExpression::Port(s.clone()),
            BasicExpression::PortWithQualifier { port, qualifier } => {
                BasicExpression::PortWithQualifier {
                    port: port.clone(),
                    qualifier: qualifier.clone(),
                }
            },
            BasicExpression::DataAccess(s) => BasicExpression::DataAccess(s.clone()),
            BasicExpression::Timeout(e) => BasicExpression::Timeout(Box::new((**e).clone())),
            BasicExpression::DataSubcomponent(s) => BasicExpression::DataSubcomponent(s.clone()),
            BasicExpression::DataSubcomponentWithIndex { subcomponent, index } => {
                BasicExpression::DataSubcomponentWithIndex {
                    subcomponent: subcomponent.clone(),
                    index: Box::new((**index).clone()),
                }
            },
            BasicExpression::DataAccessWithSubcomponent { access, subcomponent } => {
                BasicExpression::DataAccessWithSubcomponent {
                    access: access.clone(),
                    subcomponent: subcomponent.clone(),
                }
            },
            BasicExpression::DataSubcomponentWithSubcomponent { container, subcomponent } => {
                BasicExpression::DataSubcomponentWithSubcomponent {
                    container: container.clone(),
                    subcomponent: subcomponent.clone(),
                }
            },
            BasicExpression::DataClassifierSubprogram { classifier, subprogram, parameters } => {
                let params = match parameters {
                    Some(ps) => {
                        let mut out: Vec<BasicExpression> = Vec::new();
                        let mut i: usize = 0;
                        while i < ps.len()
                            invariant
                                i <= ps.len(),
                            decreases ps.len() - i,
                        {
                            assert(decreases_to!(self => ps@[i as int]));
                            out.push(ps[i].clone());
                            i = i + 1;
                        }
                        Some(out)
                    },
                    None => None,
                };
                BasicExpression::DataClassifierSubprogram {
                    classifier: classifier.clone(),
                    subprogram: subprogram.clone(),
                    parameters: params,
                }
            },
            BasicExpression::DataClassifierSubprogramWithTimeout { classifier, subprogram, timeout } => {
                BasicExpression::DataClassifierSubprogramWithTimeout {
                    classifier: classifier.clone(),
                    subprogram: subprogram.clone(),
                    timeout: Box::new((**timeout).clone()),
                }
            },
            BasicExpression::DataClassifierSubprogramWithParameter {
                classifier,
                subprogram,
                parameter,
                expression,
            } => BasicExpression::DataClassifierSubprogramWithParameter {
                classifier: classifier.clone(),
                subprogram: subprogram.clone(),
                parameter: parameter.clone(),
                expression: Box::new((**expression).clone()),
            },
            BasicExpression::Parenthesized(e) => BasicExpression::Parenthesized(Box::new((**e).clone())),
            BasicExpression::Quantified { quantifier, identifier, range, expression } => {
                BasicExpression::Quantified {
                    quantifier: quantifier.clone(),
                    identifier: identifier.clone(),
                    range: Box::new((**range).clone()),
                    expression: Box::new((**expression).clone()),
                }
            },
            BasicExpression::BinaryOp { left, operator, right } => BasicExpression::BinaryOp {
                left: Box::new((**left).clone()),
                operator: operator.clone(),
                right: Box::new((**right).clone()),
            },
            BasicExpression::Not(e) => BasicExpression::Not(Box::new((**e).clone())),
        }
    }
}

impl Clone for BehaviorActionBlock {
    fn clone(&self) -> Self
        decreases self,
    {
        BehaviorActionBlock { actions: self.actions.clone(), timeout: self.timeout.clone() }
    }
}

impl Clone for BehaviorActions {
    fn clone(&self) -> Self
        decreases self,
    {
        match self {
            BehaviorActions::Single(a) => BehaviorActions::Single(Box::new((**a).clone())),
            BehaviorActions::Sequence(s) => BehaviorActions::Sequence(s.clone()),
            BehaviorActions::ActionSet(s) => BehaviorActions::ActionSet(s.clone()),
        }
    }
}

impl Clone for BehaviorActionSequence {
    fn clone(&self) -> Self
        decreases self,
    {
        let mut actions: Vec<BehaviorAction> = Vec::new();
        let mut i: usize = 0;
        while i < self.actions.len()
            invariant
                i <= self.actions.len(),
            decreases self.actions.len() - i,
        {
            assert(decreases_to!(self => self.actions@[i as int]));
            actions.push(self.actions[i].clone());
            i = i + 1;
        }
        BehaviorActionSequence { actions }
    }
}

impl Clone for BehaviorActionSet {
    fn clone(&self) -> Self
        decreases self,
    {
        let mut actions: Vec<BehaviorAction> = Vec::new();
        let mut i: usize = 0;
        while i < self.actions.len()
            invariant
                i <= self.actions.len(),
            decreases self.actions.len() - i,
        {
            assert(decreases_to!(self => self.actions@[i as int]));
            actions.push(self.actions[i].clone());
            i = i + 1;
        }
        BehaviorActionSet { actions }
    }
}

impl Clone for BehaviorAction {
    fn clone(&self) -> Self
        decreases self,
    {
        match self {
            BehaviorAction::Basic(b) => BehaviorAction::Basic(b.clone()),
            BehaviorAction::Block(b) => BehaviorAction::Block(Box::new((**b).clone())),
            BehaviorAction::If(s) => BehaviorAction::If(s.clone()),
            BehaviorAction::For(s) => BehaviorAction::For(s.clone()),
            BehaviorAction::Forall(s) => BehaviorAction::Forall(s.clone()),
            BehaviorAction::While(s) => BehaviorAction::While(s.clone()),
            BehaviorAction::DoUntil(s) => BehaviorAction::DoUntil(s.clone()),
        }
    }
}

impl Clone for IfStatement {
    fn clone(&self) -> Self
        decreases self,
    {
        let mut elsif_branches: Vec<ElsifBranch> = Vec::new();
        let mut i: usize = 0;
        while i < self.elsif_branches.len()
            invariant
                i <= self.elsif_branches.len(),
            decreases self.elsif_branches.len() - i,
        {
            assert(decreases_to!(self => self.elsif_branches@[i as int]));
            elsif_branches.push(self.elsif_branches[i].clone());
            i = i + 1;
        }
        let else_actions = match &self.else_actions {
            Some(a) => Some(Box::new((**a).clone())),
            None => None,
        };
        IfStatement {
            condition: self.condition.clone(),
            then_actions: Box::new((*self.then_actions).clone()),
            elsif_branches,
            else_actions,
        }
    }
}

impl Clone for ElsifBranch {
    fn clone(&self) -> Self
        decreases self,
    {
        ElsifBranch {
            condition: self.condition.clone(),
            actions: Box::new((*self.actions).clone()),
        }
    }
}

impl Clone for ForStatement {
    fn clone(&self) -> Self
        decreases self,
    {
        ForStatement {
            element_identifier: self.element_identifier.clone(),
            data_classifier: self.data_classifier.clone(),
            element_values: self.element_values.clone(),
            actions: Box::new((*self.actions).clone()),
        }
    }
}

impl Clone for ForallStatement {
    fn clone(&self) -> Self
        decreases self,
    {
        ForallStatement {
            element_identifier: self.element_identifier.clone(),
            data_classifier: self.data_classifier.clone(),
            element_values: self.element_values.clone(),
            actions: Box::new((*self.actions).clone()),
        }
    }
}

impl Clone for WhileStatement {
    fn clone(&self) -> Self
        decreases self,
    {
        WhileStatement {
            condition: self.condition.clone(),
            actions: Box::new((*self.actions).clone()),
        }
    }
}

impl Clone for DoUntilStatement {
    fn clone(&self) -> Self
        decreases self,
    {
        DoUntilStatement {
            actions: Box::new((*self.actions).clone()),
            condition: self.condition.clone(),
        }
    }
}

impl Clone for PrototypeBindings {
    fn clone(&self) -> Self
        decreases self,
    {
        let mut bindings: Vec<PrototypeBinding> = Vec::new();
        let mut i: usize = 0;
        while i < self.bindings.len()
            invariant
                i <= self.bindings.len(),
            decreases self.bindings.len() - i,
        {
            assert(decreases_to!(self => self.bindings@[i as int]));
            bindings.push(self.bindings[i].clone());
            i = i + 1;
        }
        PrototypeBindings { bindings }
    }
}

impl Clone for PrototypeBinding {
    fn clone(&self) -> Self
        decreases self,
    {
        PrototypeBinding { identifier: self.identifier.clone(), actual: self.actual.clone() }
    }
}

impl Clone for PrototypeActual {
    #[verifier::loop_isolation(false)]
    fn clone(&self) -> Self
        decreases self,
    {
        match self {
            PrototypeActual::Component(c) => PrototypeActual::Component(c.clone()),
            PrototypeActual::ComponentList(cs) => {
                let mut out: Vec<ComponentPrototypeActual> = Vec::new();
                let mut i: usize = 0;
                while i < cs.len()
                    invariant
                        i <= cs.len(),
                    decreases cs.len() - i,
                {
                    assert(decreases_to!(self => cs@[i as int]));
                    out.push(cs[i].clone());
                    i = i + 1;
                }
                PrototypeActual::ComponentList(out)
            },
            PrototypeActual::FeatureGroup(f) => PrototypeActual::FeatureGroup(f.clone()),
            PrototypeActual::Feature(f) => PrototypeActual::Feature(f.clone()),
        }
    }
}

impl Clone for ComponentPrototypeActual {
    fn clone(&self) -> Self
        decreases self,
    {
        let bindings = match &self.bindings {
            Some(b) => Some(b.clone()),
            None => None,
        };
        ComponentPrototypeActual {
            category: self.category.clone(),
            reference: self.reference.clone(),
            bindings,
        }
    }
}

impl Clone for FeatureGroupPrototypeActual {
    fn clone(&self) -> Self
        decreases self,
    {
        match self {
            FeatureGroupPrototypeActual::Classifier { reference, bindings } => {
                let b = match bindings {
                    Some(b) => Some(b.clone()),
                    None => None,
                };
                FeatureGroupPrototypeActual::Classifier { reference: reference.clone(), bindings: b }
            },
            FeatureGroupPrototypeActual::Prototype(s) => FeatureGroupPrototypeActual::Prototype(s.clone()),
        }
    }
}

impl Clone for PropertyListElement {
    #[verifier::loop_isolation(false)]
    fn clone(&self) -> Self
        decreases self,
    {
        match self {
            PropertyListElement::Value(e) => PropertyListElement::Value(e.clone()),
            PropertyListElement::NestedList(items) => {
                let mut out: Vec<PropertyListElement> = Vec::new();
                let mut i: usize = 0;
                while i < items.len()
                    invariant
                        i <= items.len(),
                    decreases items.len() - i,
                {
                    assert(decreases_to!(self => items@[i as int]));
                    out.push(items[i].clone());
                    i = i + 1;
                }
                PropertyListElement::NestedList(out)
            },
        }
    }
}

} // verus!
