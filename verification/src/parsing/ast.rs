//! The tree nodes a grammar built on the combinators produces: plain data
//! containers, with no behaviour of their own.

use vstd::prelude::*;

use crate::domain::{ValueIntUnsigned, ValueWidth};

verus! {

/// A name appearing in the source, held as its raw bytes.
#[derive(Clone, Debug, PartialEq, Eq, Hash)]
pub struct Symbol {
    pub name: Vec<u8>,
}

/// One argument in a function type: an optional name and an optional type.
#[derive(Debug, PartialEq)]
pub struct FunctionArgument {
    pub name: Option<Symbol>,
    pub argument_type: Option<Box<Type>>,
}

/// A function type: its arguments and its return type.
#[derive(Debug, PartialEq)]
pub struct TypeFunction {
    pub arguments: Vec<FunctionArgument>,
    pub return_type: Option<Box<Type>>,
}

/// A non-function type.
#[derive(Debug, PartialEq)]
pub enum TypeBasic {
    Bool,
    IntUnsigned(ValueWidth),
    IntSigned(ValueWidth),
    Float(ValueWidth),
    Void,
    Never,
    Null,
    Symbol { name: Symbol },
}

/// Any type.
#[derive(Debug, PartialEq)]
pub enum Type {
    Basic(TypeBasic),
    Function(TypeFunction),
}

/// A unary operator.
#[derive(Clone, Copy, Debug, PartialEq)]
pub enum OperatorUnary {
    BitNegate,
    BoolNot,
    Negate,
    Positive,
    Increment,
    Decrement,
}

/// A binary operator.
#[derive(Clone, Copy, Debug, PartialEq)]
pub enum OperatorBinary {
    BitAnd,
    BitOr,
    BitXor,
    BitShiftLeft,
    BitShiftRight,
    BoolAnd,
    BoolOr,
    Add,
    Subtract,
    Multiply,
    Divide,
    Exponentiate,
    Modulate,
    LessThan,
    LessThanOrEqualTo,
    GreaterThan,
    GreaterThanOrEqualTo,
    Equals,
    NotEquals,
    Assign,
    BitAndAssign,
    BitOrAssign,
    BitXorAssign,
    BitShiftLeftAssign,
    BitShiftRightAssign,
    BoolAndAssign,
    BoolOrAssign,
    AddAssign,
    SubtractAssign,
    MultiplyAssign,
    ExponentiateAssign,
    ModulateAssign,
}

/// A value expression.
#[derive(Debug, PartialEq)]
pub enum Value {
    Bool(bool),
    IntUnsigned(ValueIntUnsigned),
    Null,
    Symbol { name: Symbol },
    Cast { value: Box<Value>, value_type: Box<Type> },
    Call { callee: Box<Value>, arguments: Vec<Value> },
    UnaryOperation { operator: OperatorUnary, argument: Box<Value> },
    BinaryOperation { operator: OperatorBinary, left: Box<Value>, right: Box<Value> },
}

/// A statement.
#[derive(Debug, PartialEq)]
pub enum Statement {
    Value(Box<Value>),
    Block { statements: Vec<Statement> },
}

/// The name a function is declared under.
#[derive(Debug, PartialEq)]
pub enum FunctionName {
    Symbol(Symbol),
}

/// One entry of an enum declaration: its name and its optional value.
#[derive(Debug, PartialEq)]
pub struct EnumEntry {
    pub name: Symbol,
    pub value: Option<Box<Value>>,
}

/// A top-level declaration.
#[derive(Debug, PartialEq)]
pub enum Declaration {
    Variable { name: Symbol, variable_type: Option<Box<Type>>, value: Box<Value>, is_const: bool },
    Function { name: FunctionName, function_type: TypeFunction, body: Option<Box<Statement>>, is_prop: bool },
}

} // verus!
