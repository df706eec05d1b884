//! The Welkin data types that the editor exchanges with Welkin programs.
#![allow(non_camel_case_types)]
use vstd::prelude::*;

verus! {

/// A Welkin boolean.
#[derive(Debug, PartialEq)]
pub enum Bool {
    True,
    False,
}

/// A Welkin word: a list of bits, the last one added outermost.
#[derive(Debug, PartialEq)]
pub enum Word {
    empty,
    low { after: Box<Word> },
    high { after: Box<Word> },
}

/// A Welkin vector.
#[derive(Debug, PartialEq)]
pub enum Vector<A> {
    nil,
    cons { head: A, tail: Box<Vector<A>> },
}

/// A Welkin character: the word of its code point.
#[derive(Debug, PartialEq)]
pub enum Char {
    new { value: Word },
}

/// A Welkin string: a vector of characters.
#[derive(Debug, PartialEq)]
pub enum Str {
    new { value: Vector<Char> },
}

/// A Welkin natural number.
#[derive(Debug, PartialEq)]
pub struct Size(pub usize);

/// A value together with its size.
#[derive(Debug, PartialEq)]
pub enum WithSize<A> {
    new { size: Size, data: A },
}

/// The syntax of Welkin terms as Welkin programs see it: variables are
/// indices, and only references keep a name.
#[derive(Debug, PartialEq)]
pub enum Ast {
    Lambda { erased: Bool, body: Box<Ast> },
    Variable { index: Size },
    Application { erased: Bool, function: Box<Ast>, argument: Box<Ast> },
    Put { term: Box<Ast> },
    Duplication { expression: Box<Ast>, body: Box<Ast> },
    Reference { name: WithSize<Str> },
    Universe,
    Function { erased: Bool, argument_type: Box<Ast>, return_type: Box<Ast> },
    Wrap { term: Box<Ast> },
}

} // verus!
