//! A zipper over editor terms: a cursor is a focused term together with the
//! path from it up to the root.
use vstd::prelude::*;

use crate::literal::{
    app, bit_name, byte_len, char_bit_vec, char_bits, char_tm, lit_tm, size_tm, vector_tm, word_tm, CompressedChar, CompressedSize,
    CompressedTerm, CompressedWord, Lit, Zero, blank, zero_is,
};
use crate::bindings::push_char;
use crate::substitute::no_literals;
use crate::term::{clone_annotation, clone_keeps, clone_name, name_view, Tm};

verus! {

/// A term of the editor, annotated with `T`. A compressed literal stands for
/// the term it expands to.
#[derive(Debug, PartialEq)]
pub enum Term<T> {
    Lambda { erased: bool, name: Option<String>, body: Box<Term<T>>, annotation: T },
    Application { erased: bool, function: Box<Term<T>>, argument: Box<Term<T>>, annotation: T },
    Put(Box<Term<T>>, T),
    Duplication {
        binder: Option<String>,
        expression: Box<Term<T>>,
        body: Box<Term<T>>,
        annotation: T,
    },
    Reference(String, T),
    Universe(T),
    Function {
        erased: bool,
        name: Option<String>,
        self_name: Option<String>,
        argument_type: Box<Term<T>>,
        return_type: Box<Term<T>>,
        annotation: T,
    },
    Wrap(Box<Term<T>>, T),
    Hole(T),
    Compressed(CompressedTerm),
}

/// The way from a focused position up to the root: each step records the
/// parent node without the child that is in focus.
#[derive(Debug, PartialEq)]
pub enum Path<T> {
    Top,
    Lambda { erased: bool, name: Option<String>, up: Box<Path<T>>, annotation: T },
    ApplicationFunction { erased: bool, argument: Term<T>, up: Box<Path<T>>, annotation: T },
    ApplicationArgument { erased: bool, function: Term<T>, up: Box<Path<T>>, annotation: T },
    Put { up: Box<Path<T>>, annotation: T },
    Reference { name: String, up: Box<Path<T>>, annotation: T },
    DuplicationExpression { binder: Option<String>, body: Term<T>, up: Box<Path<T>>, annotation: T },
    DuplicationBody { binder: Option<String>, expression: Term<T>, up: Box<Path<T>>, annotation: T },
    Universe { up: Box<Path<T>>, annotation: T },
    FunctionArgumentType {
        erased: bool,
        name: Option<String>,
        self_name: Option<String>,
        return_type: Term<T>,
        up: Box<Path<T>>,
        annotation: T,
    },
    FunctionReturnType {
        erased: bool,
        name: Option<String>,
        self_name: Option<String>,
        argument_type: Term<T>,
        up: Box<Path<T>>,
        annotation: T,
    },
    Wrap { up: Box<Path<T>>, annotation: T },
    Hole { up: Box<Path<T>>, annotation: T },
}

/// The annotation-free model of an editor term; a literal stays a literal.
pub open spec fn ztm<T>(t: Term<T>) -> Tm
    decreases t,
{
    match t {
        Term::Lambda { erased, name, body, .. } => Tm::Lam {
            erased,
            name: name_view(name),
            body: Box::new(ztm(*body)),
        },
        Term::Application { erased, function, argument, .. } => Tm::App {
            erased,
            function: Box::new(ztm(*function)),
            argument: Box::new(ztm(*argument)),
        },
        Term::Put(t, _) => Tm::Put(Box::new(ztm(*t))),
        Term::Duplication { binder, expression, body, .. } => Tm::Dup {
            binder: name_view(binder),
            expression: Box::new(ztm(*expression)),
            body: Box::new(ztm(*body)),
        },
        Term::Reference(r, _) => Tm::Ref(r@),
        Term::Universe(_) => Tm::Univ,
        Term::Function { erased, name, self_name, argument_type, return_type, .. } => Tm::Fun {
            erased,
            name: name_view(name),
            self_name: name_view(self_name),
            argument_type: Box::new(ztm(*argument_type)),
            return_type: Box::new(ztm(*return_type)),
        },
        Term::Wrap(t, _) => Tm::Wrap(Box::new(ztm(*t))),
        Term::Hole(_) => Tm::Hole,
        Term::Compressed(c) => Tm::Lit(c@),
    }
}

impl<T> View for Term<T> {
    type V = Tm;

    open spec fn view(&self) -> Tm {
        ztm(*self)
    }
}

/// The parent of a path step (the top is its own parent).
pub open spec fn parent<T>(p: Path<T>) -> Path<T> {
    match p {
        Path::Top => Path::Top,
        Path::Lambda { up, .. } => *up,
        Path::ApplicationFunction { up, .. } => *up,
        Path::ApplicationArgument { up, .. } => *up,
        Path::Put { up, .. } => *up,
        Path::Reference { up, .. } => *up,
        Path::DuplicationExpression { up, .. } => *up,
        Path::DuplicationBody { up, .. } => *up,
        Path::Universe { up, .. } => *up,
        Path::FunctionArgumentType { up, .. } => *up,
        Path::FunctionReturnType { up, .. } => *up,
        Path::Wrap { up, .. } => *up,
        Path::Hole { up, .. } => *up,
    }
}

/// The parent node that the first step of `p` describes, with `t` put back in
/// the place of the focused child. Reference, universe and hole steps have no
/// child, so their node does not depend on `t`; the top step leaves `t` as
/// it is.
pub open spec fn fill<T>(p: Path<T>, t: Term<T>) -> Term<T> {
    match p {
        Path::Top => t,
        Path::Lambda { erased, name, annotation, .. } => Term::Lambda {
            erased,
            name,
            body: Box::new(t),
            annotation,
        },
        Path::ApplicationFunction { erased, argument, annotation, .. } => Term::Application {
            erased,
            function: Box::new(t),
            argument: Box::new(argument),
            annotation,
        },
        Path::ApplicationArgument { erased, function, annotation, .. } => Term::Application {
            erased,
            function: Box::new(function),
            argument: Box::new(t),
            annotation,
        },
        Path::Put { annotation, .. } => Term::Put(Box::new(t), annotation),
        Path::Reference { name, annotation, .. } => Term::Reference(name, annotation),
        Path::DuplicationExpression { binder, body, annotation, .. } => Term::Duplication {
            binder,
            expression: Box::new(t),
            body: Box::new(body),
            annotation,
        },
        Path::DuplicationBody { binder, expression, annotation, .. } => Term::Duplication {
            binder,
            expression: Box::new(expression),
            body: Box::new(t),
            annotation,
        },
        Path::Universe { annotation, .. } => Term::Universe(annotation),
        Path::FunctionArgumentType { erased, name, self_name, return_type, annotation, .. } =>
            Term::Function {
                erased,
                name,
                self_name,
                argument_type: Box::new(t),
                return_type: Box::new(return_type),
                annotation,
            },
        Path::FunctionReturnType { erased, name, self_name, argument_type, annotation, .. } =>
            Term::Function {
                erased,
                name,
                self_name,
                argument_type: Box::new(argument_type),
                return_type: Box::new(t),
                annotation,
            },
        Path::Wrap { annotation, .. } => Term::Wrap(Box::new(t), annotation),
        Path::Hole { annotation, .. } => Term::Hole(annotation),
    }
}

/// The number of steps from a position up to the root.
pub open spec fn depth<T>(p: Path<T>) -> nat
    decreases p,
{
    match p {
        Path::Top => 0,
        Path::Lambda { up, .. } => 1 + depth(*up),
        Path::ApplicationFunction { up, .. } => 1 + depth(*up),
        Path::ApplicationArgument { up, .. } => 1 + depth(*up),
        Path::Put { up, .. } => 1 + depth(*up),
        Path::Reference { up, .. } => 1 + depth(*up),
        Path::DuplicationExpression { up, .. } => 1 + depth(*up),
        Path::DuplicationBody { up, .. } => 1 + depth(*up),
        Path::Universe { up, .. } => 1 + depth(*up),
        Path::FunctionArgumentType { up, .. } => 1 + depth(*up),
        Path::FunctionReturnType { up, .. } => 1 + depth(*up),
        Path::Wrap { up, .. } => 1 + depth(*up),
        Path::Hole { up, .. } => 1 + depth(*up),
    }
}

pub proof fn lemma_parent_depth<T>(p: Path<T>)
    ensures
        !(p is Top) ==> depth(parent(p)) + 1 == depth(p),
        p is Top ==> depth(p) == 0,
{
}

/// The whole term: `t` put back at the position that `p` leads to.
pub open spec fn plug<T>(p: Path<T>, t: Term<T>) -> Term<T>
    decreases depth(p),
{
    if p is Top {
        t
    } else {
        proof {
            lemma_parent_depth(p);
        }
        plug(parent(p), fill(p, t))
    }
}


/// A cursor on a lambda.
#[derive(Clone, Debug, PartialEq)]
pub struct LambdaCursor<T> {
    pub erased: bool,
    pub name: Option<String>,
    pub body: Term<T>,
    pub up: Path<T>,
    pub annotation: T,
}

/// A cursor on an application.
#[derive(Clone, Debug, PartialEq)]
pub struct ApplicationCursor<T> {
    pub erased: bool,
    pub function: Term<T>,
    pub argument: Term<T>,
    pub up: Path<T>,
    pub annotation: T,
}

/// A cursor on a `put`.
#[derive(Clone, Debug, PartialEq)]
pub struct PutCursor<T> {
    pub term: Term<T>,
    pub up: Path<T>,
    pub annotation: T,
}

/// A cursor on a reference to a name.
#[derive(Clone, Debug, PartialEq)]
pub struct ReferenceCursor<T> {
    pub name: String,
    pub up: Path<T>,
    pub annotation: T,
}

/// A cursor on a duplication.
#[derive(Clone, Debug, PartialEq)]
pub struct DuplicationCursor<T> {
    pub binder: Option<String>,
    pub expression: Term<T>,
    pub body: Term<T>,
    pub up: Path<T>,
    pub annotation: T,
}

/// A cursor on the universe.
#[derive(Clone, Debug, PartialEq)]
pub struct UniverseCursor<T> {
    pub path: Path<T>,
    pub annotation: T,
}

/// A cursor on a function type.
#[derive(Clone, Debug, PartialEq)]
pub struct FunctionCursor<T> {
    pub erased: bool,
    pub binder: Option<String>,
    pub self_binder: Option<String>,
    pub argument_type: Term<T>,
    pub return_type: Term<T>,
    pub up: Path<T>,
    pub annotation: T,
}

/// A cursor on a `wrap`.
#[derive(Clone, Debug, PartialEq)]
pub struct WrapCursor<T> {
    pub term: Term<T>,
    pub up: Path<T>,
    pub annotation: T,
}

/// A cursor on a hole.
#[derive(Clone, Debug, PartialEq)]
pub struct HoleCursor<T> {
    pub up: Path<T>,
    pub annotation: T,
}

/// A focused position in a term.
#[derive(Clone, Debug, PartialEq)]
pub enum Cursor<T> {
    Lambda(LambdaCursor<T>),
    Application(ApplicationCursor<T>),
    Put(PutCursor<T>),
    Reference(ReferenceCursor<T>),
    Duplication(DuplicationCursor<T>),
    Universe(UniverseCursor<T>),
    Function(FunctionCursor<T>),
    Wrap(WrapCursor<T>),
    Hole(HoleCursor<T>),
}

impl<T> Cursor<T> {
    /// The term in focus.
    pub open spec fn focus(self) -> Term<T> {
        match self {
            Cursor::Lambda(c) => Term::Lambda {
                erased: c.erased,
                name: c.name,
                body: Box::new(c.body),
                annotation: c.annotation,
            },
            Cursor::Application(c) => Term::Application {
                erased: c.erased,
                function: Box::new(c.function),
                argument: Box::new(c.argument),
                annotation: c.annotation,
            },
            Cursor::Put(c) => Term::Put(Box::new(c.term), c.annotation),
            Cursor::Reference(c) => Term::Reference(c.name, c.annotation),
            Cursor::Duplication(c) => Term::Duplication {
                binder: c.binder,
                expression: Box::new(c.expression),
                body: Box::new(c.body),
                annotation: c.annotation,
            },
            Cursor::Universe(c) => Term::Universe(c.annotation),
            Cursor::Function(c) => Term::Function {
                erased: c.erased,
                name: c.binder,
                self_name: c.self_binder,
                argument_type: Box::new(c.argument_type),
                return_type: Box::new(c.return_type),
                annotation: c.annotation,
            },
            Cursor::Wrap(c) => Term::Wrap(Box::new(c.term), c.annotation),
            Cursor::Hole(c) => Term::Hole(c.annotation),
        }
    }

    /// The path from the focus up to the root.
    pub open spec fn up(self) -> Path<T> {
        match self {
            Cursor::Lambda(c) => c.up,
            Cursor::Application(c) => c.up,
            Cursor::Put(c) => c.up,
            Cursor::Reference(c) => c.up,
            Cursor::Duplication(c) => c.up,
            Cursor::Universe(c) => c.path,
            Cursor::Function(c) => c.up,
            Cursor::Wrap(c) => c.up,
            Cursor::Hole(c) => c.up,
        }
    }

    /// The whole term that the cursor is a position in.
    pub open spec fn whole(self) -> Term<T> {
        plug(self.up(), self.focus())
    }
}

/// `res` is the cursor that focuses `term` with path `up`; a literal in focus
/// is first expanded by one step.
pub open spec fn placed<T>(res: Cursor<T>, term: Term<T>, up: Path<T>) -> bool {
    &&& res.up() == up
    &&& match term {
        Term::Compressed(c) => res.focus()@ == lit_step(c@),
        _ => res.focus() == term,
    }
}

/// `res` is the cursor one step above `c`; at the top, `c` itself.
pub open spec fn ascended<T>(c: Cursor<T>, res: Cursor<T>) -> bool {
    if c.up() is Top {
        res == c
    } else {
        res.focus() == fill(c.up(), c.focus()) && res.up() == parent(c.up())
    }
}


/// The word of `bits` with its literal sizes left compressed: the last bit is
/// the outermost constructor, and the constructor for bit `i` takes the size
/// literal `i` as its erased argument.
pub open spec fn word_step(bits: Seq<bool>) -> Tm
    decreases bits.len(),
{
    if bits.len() == 0 {
        Tm::Ref("Word::empty"@)
    } else {
        let k = (bits.len() - 1) as nat;
        app(
            false,
            app(true, Tm::Ref(bit_name(bits[k as int])), Tm::Lit(Lit::Size(k))),
            word_step(bits.take(k as int)),
        )
    }
}

/// A vector of `elems` with element type `ty`; the element at position `i` of
/// `n` is consed with the size literal `n - 1 - i`.
pub open spec fn vector_step(ty: Tm, elems: Seq<Tm>) -> Tm
    decreases elems.len(),
{
    if elems.len() == 0 {
        app(true, Tm::Ref("Vector::nil"@), ty)
    } else {
        app(
            false,
            app(
                false,
                app(
                    true,
                    app(true, Tm::Ref("Vector::cons"@), ty),
                    Tm::Lit(Lit::Size((elems.len() - 1) as nat)),
                ),
                elems[0],
            ),
            vector_step(ty, elems.drop_first()),
        )
    }
}

/// The character literals of `s`, in order.
pub open spec fn char_lits(s: Seq<char>) -> Seq<Tm> {
    Seq::new(s.len(), |k: int| char_lit(s[k]))
}

pub open spec fn char_lit(c: char) -> Tm {
    Tm::Lit(Lit::Char(c))
}

/// One step of expansion of a literal: the literals it is built from stay
/// compressed.
pub open spec fn lit_step(l: Lit) -> Tm {
    match l {
        Lit::Word(bits) => word_step(bits),
        Lit::Size(n) => size_tm(n),
        Lit::Char(c) => app(false, Tm::Ref("Char::new"@), Tm::Lit(Lit::Word(char_bits(c)))),
        Lit::Str(s) => app(
            false,
            app(true, Tm::Ref("String::new"@), Tm::Lit(Lit::Size(byte_len(s)))),
            vector_step(Tm::Ref("Char"@), char_lits(s)),
        ),
    }
}

/// The type of the value a literal stands for.
pub open spec fn lit_type(l: Lit) -> Tm {
    match l {
        Lit::Word(bits) => app(true, Tm::Ref("Word"@), Tm::Lit(Lit::Size(bits.len()))),
        Lit::Size(_) => Tm::Ref("Size"@),
        Lit::Char(_) => Tm::Ref("Char"@),
        Lit::Str(s) => app(true, Tm::Ref("String"@), Tm::Lit(Lit::Size(byte_len(s)))),
    }
}

fn reference<T: Zero>(name: &str) -> (res: Term<T>)
    ensures
        res@ == Tm::Ref(name@),
        !(res is Compressed),
        forall|z: T| zero_is(z) ==> #[trigger] term_anns_all(res, z),
{
    Term::Reference(name.to_owned(), T::zero())
}

fn application<T: Zero>(erased: bool, function: Term<T>, argument: Term<T>) -> (res: Term<T>)
    ensures
        res@ == app(erased, function@, argument@),
        !(res is Compressed),
        forall|z: T| zero_is(z) && term_anns_all(function, z) && term_anns_all(argument, z) ==> #[trigger] term_anns_all(res, z),
{
    Term::Application {
        erased,
        function: Box::new(function),
        argument: Box::new(argument),
        annotation: T::zero(),
    }
}

fn size_literal<T>(n: usize) -> (res: Term<T>)
    ensures
        res@ == Tm::Lit(Lit::Size(n as nat)),
{
    Term::Compressed(CompressedTerm::Size(CompressedSize::new(n)))
}

fn expand_size<T: Zero>(n: usize) -> (res: Term<T>)
    ensures
        res@ == size_tm(n as nat),
        !(res is Compressed),
        forall|z: T| zero_is(z) ==> #[trigger] term_anns_all(res, z),
{
    let mut term = reference("Size::zero");
    let mut i: usize = 0;
    while i < n
        invariant
            i <= n,
            term@ == size_tm(i as nat),
            !(term is Compressed),
            forall|z: T| zero_is(z) ==> #[trigger] term_anns_all(term, z),
        decreases n - i,
    {
        term = application(false, reference("Size::succ"), term);
        i = i + 1;
    }
    term
}

fn expand_word<T: Zero>(bits: &Vec<bool>) -> (res: Term<T>)
    ensures
        res@ == word_step(bits@),
        !(res is Compressed),
        forall|z: T| zero_is(z) ==> #[trigger] term_anns_all(res, z),
{
    let mut term = reference("Word::empty");
    let mut idx: usize = 0;
    while idx < bits.len()
        invariant
            idx <= bits.len(),
            term@ == word_step(bits@.take(idx as int)),
            !(term is Compressed),
            forall|z: T| zero_is(z) ==> #[trigger] term_anns_all(term, z),
        decreases bits.len() - idx,
    {
        let call = if bits[idx] {
            reference("Word::high")
        } else {
            reference("Word::low")
        };
        let call = application(true, call, size_literal(idx));
        term = application(false, call, term);
        proof {
            let next = bits@.take(idx + 1);
            assert(next.take(idx as int) =~= bits@.take(idx as int));
            assert(next[idx as int] == bits@[idx as int]);
        }
        idx = idx + 1;
    }
    assert(bits@.take(bits.len() as int) =~= bits@);
    term
}

/// The vector term of `data` with element type `ty`: `Vector::cons` applied
/// to the type, the size literal of the rest's length, the element and the
/// rest, ending in `Vector::nil` applied to the type.
pub fn make_vector<T: Zero + Clone>(ty: Term<T>, data: Vec<Term<T>>) -> (res: Term<T>)
    ensures
        res@ == vector_step(ty@, data@.map_values(|e: Term<T>| e@)),
        !(res is Compressed),
        forall|z: T| blank(z) && term_anns_all(ty, z) && (forall|k: int| 0 <= k < data@.len() ==> term_anns_all(#[trigger] data@[k], z)) ==> #[trigger] term_anns_all(res, z),
{
    let ghost elems = data@.map_values(|e: Term<T>| e@);
    let ghost data0 = data@;
    let mut term = application(true, reference("Vector::nil"), ty.clone());
    let mut data = data;
    let mut idx: usize = 0;
    let n = data.len();
    while data.len() > 0
        invariant
            idx + data@.len() == n,
            n == elems.len(),
            forall|k: int| 0 <= k < data@.len() ==> #[trigger] data@[k]@ == elems[k],
            term@ == vector_step(ty@, elems.skip(data@.len() as int)),
            !(term is Compressed),
            forall|z: T| blank(z) && term_anns_all(ty, z) && (forall|k: int| 0 <= k < n ==> term_anns_all(#[trigger] data0[k], z)) ==> #[trigger] term_anns_all(term, z),
            forall|k: int| 0 <= k < data@.len() ==> #[trigger] data@[k] == data0[k],
        decreases data@.len(),
    {
        let element = data.pop().unwrap();
        let cons = application(true, reference("Vector::cons"), ty.clone());
        let call = application(true, cons, size_literal(idx));
        let call = application(false, call, element);
        term = application(false, call, term);
        proof {
            let s = elems.skip(data@.len() as int);
            assert(s.drop_first() =~= elems.skip(data@.len() as int + 1));
            assert(s[0] == elems[data@.len() as int]);
        }
        idx = idx + 1;
    }
    assert(elems.skip(0) =~= elems);
    term
}

impl CompressedTerm {
    /// The term that the literal stands for, expanded by one step.
    pub fn expand<T: Zero + Clone>(&self) -> (res: Term<T>)
        ensures
            res@ == lit_step(self@),
            !(res is Compressed),
            forall|z: T| blank(z) ==> #[trigger] term_anns_all(res, z),
    {
        match self {
            CompressedTerm::Word(w) => expand_word(w.bits()),
            CompressedTerm::Size(s) => expand_size(s.size()),
            CompressedTerm::Char(c) => {
                let bits = char_bit_vec(c.char());
                application(
                    false,
                    reference("Char::new"),
                    Term::Compressed(CompressedTerm::Word(CompressedWord::new(bits))),
                )
            },
            CompressedTerm::String(s) => {
                let text = s.data().as_str();
                let n = text.unicode_len();
                let mut chars: Vec<Term<T>> = Vec::new();
                let mut i: usize = 0;
                while i < n
                    invariant
                        i <= n,
                        n == s@.len(),
                        text@ == s@,
                        chars@.len() == i,
                        forall|k: int|
                            0 <= k < i ==> #[trigger] chars@[k]@ == Tm::Lit(Lit::Char(s@[k])),
                        forall|k: int| 0 <= k < i ==> #[trigger] chars@[k] is Compressed,
                    decreases n - i,
                {
                    chars.push(Term::Compressed(CompressedTerm::Char(CompressedChar::new(text.get_char(i)))));
                    i = i + 1;
                }
                let ghost elems = chars@.map_values(|e: Term<T>| e@);
                let ghost lits = char_lits(s@);
                assert forall|k: int| 0 <= k < elems.len() implies elems[k] == lits[k] by {
                    assert(elems[k] == chars@[k]@);
                }
                assert(elems =~= lits);
                let vector = make_vector(reference("Char"), chars);
                let size = size_literal(text.len());
                application(false, application(true, reference("String::new"), size), vector)
            },
        }
    }

    /// The type of the value the literal stands for.
    pub fn concrete_ty<T: Zero>(&self) -> (res: Term<T>)
        ensures
            res@ == lit_type(self@),
            forall|z: T| zero_is(z) ==> #[trigger] term_anns_all(res, z),
    {
        match self {
            CompressedTerm::Word(w) => application(
                true,
                reference("Word"),
                size_literal(w.bits().len()),
            ),
            CompressedTerm::Size(_) => reference("Size"),
            CompressedTerm::Char(_) => reference("Char"),
            CompressedTerm::String(s) => application(
                true,
                reference("String"),
                size_literal(s.data().as_str().len()),
            ),
        }
    }
}

/// Every annotation in the term is `z`; literals carry none.
pub open spec fn term_anns_all<T>(t: Term<T>, z: T) -> bool
    decreases t,
{
    match t {
        Term::Lambda { body, annotation, .. } => annotation == z && term_anns_all(*body, z),
        Term::Application { function, argument, annotation, .. } => annotation == z
            && term_anns_all(*function, z) && term_anns_all(*argument, z),
        Term::Put(e, a) => a == z && term_anns_all(*e, z),
        Term::Duplication { expression, body, annotation, .. } => annotation == z
            && term_anns_all(*expression, z) && term_anns_all(*body, z),
        Term::Reference(_, a) => a == z,
        Term::Universe(a) => a == z,
        Term::Function { argument_type, return_type, annotation, .. } => annotation == z
            && term_anns_all(*argument_type, z) && term_anns_all(*return_type, z),
        Term::Wrap(e, a) => a == z && term_anns_all(*e, z),
        Term::Hole(a) => a == z,
        Term::Compressed(_) => true,
    }
}

/// `b` is a copy of `a`: the same term, each annotation a clone of the one
/// in its place.
pub open spec fn term_copied<T: Clone>(a: Term<T>, b: Term<T>) -> bool
    decreases a,
{
    match a {
        Term::Lambda { body, annotation, .. } => match b {
            Term::Lambda { body: b2, annotation: a2, .. } => cloned(annotation, a2)
                && term_copied(*body, *b2),
            _ => false,
        },
        Term::Application { function, argument, annotation, .. } => match b {
            Term::Application { function: f2, argument: x2, annotation: a2, .. } => cloned(
                annotation,
                a2,
            ) && term_copied(*function, *f2) && term_copied(*argument, *x2),
            _ => false,
        },
        Term::Put(e, x) => match b {
            Term::Put(e2, y) => cloned(x, y) && term_copied(*e, *e2),
            _ => false,
        },
        Term::Duplication { expression, body, annotation, .. } => match b {
            Term::Duplication { expression: x2, body: b2, annotation: a2, .. } => cloned(
                annotation,
                a2,
            ) && term_copied(*expression, *x2) && term_copied(*body, *b2),
            _ => false,
        },
        Term::Reference(_, x) => match b {
            Term::Reference(_, y) => cloned(x, y),
            _ => false,
        },
        Term::Universe(x) => match b {
            Term::Universe(y) => cloned(x, y),
            _ => false,
        },
        Term::Function { argument_type, return_type, annotation, .. } => match b {
            Term::Function { argument_type: x2, return_type: y2, annotation: a2, .. } => cloned(
                annotation,
                a2,
            ) && term_copied(*argument_type, *x2) && term_copied(*return_type, *y2),
            _ => false,
        },
        Term::Wrap(e, x) => match b {
            Term::Wrap(e2, y) => cloned(x, y) && term_copied(*e, *e2),
            _ => false,
        },
        Term::Hole(x) => match b {
            Term::Hole(y) => cloned(x, y),
            _ => false,
        },
        Term::Compressed(_) => b is Compressed,
    }
}

/// A copy of a term whose annotations are all `z` has only `z` as
/// annotation, where cloning keeps `z`.
pub proof fn lemma_term_copied_anns<T: Clone>(a: Term<T>, b: Term<T>, z: T)
    requires
        term_copied(a, b),
        clone_keeps(z),
        term_anns_all(a, z),
    ensures
        term_anns_all(b, z),
    decreases a,
{
    match (a, b) {
        (Term::Lambda { body, .. }, Term::Lambda { body: b2, annotation: a2, .. }) => {
            assert(cloned(z, a2));
            lemma_term_copied_anns(*body, *b2, z);
        },
        (
            Term::Application { function, argument, .. },
            Term::Application { function: f2, argument: x2, annotation: a2, .. },
        ) => {
            assert(cloned(z, a2));
            lemma_term_copied_anns(*function, *f2, z);
            lemma_term_copied_anns(*argument, *x2, z);
        },
        (Term::Put(e, _), Term::Put(e2, y)) => {
            assert(cloned(z, y));
            lemma_term_copied_anns(*e, *e2, z);
        },
        (
            Term::Duplication { expression, body, .. },
            Term::Duplication { expression: x2, body: b2, annotation: a2, .. },
        ) => {
            assert(cloned(z, a2));
            lemma_term_copied_anns(*expression, *x2, z);
            lemma_term_copied_anns(*body, *b2, z);
        },
        (Term::Reference(_, _), Term::Reference(_, y)) => assert(cloned(z, y)),
        (Term::Universe(_), Term::Universe(y)) => assert(cloned(z, y)),
        (
            Term::Function { argument_type, return_type, .. },
            Term::Function { argument_type: x2, return_type: y2, annotation: a2, .. },
        ) => {
            assert(cloned(z, a2));
            lemma_term_copied_anns(*argument_type, *x2, z);
            lemma_term_copied_anns(*return_type, *y2, z);
        },
        (Term::Wrap(e, _), Term::Wrap(e2, y)) => {
            assert(cloned(z, y));
            lemma_term_copied_anns(*e, *e2, z);
        },
        (Term::Hole(_), Term::Hole(y)) => assert(cloned(z, y)),
        _ => {},
    }
}

impl<T: Clone> Term<T> {
    /// Copies the term; the copy has the same model. Annotations are copied
    /// with `T::clone`.
    pub fn copy_term(&self) -> (res: Self)
        ensures
            res@ == self@,
            (self is Compressed) == (res is Compressed),
            term_copied(*self, res),
        decreases self,
    {
        match self {
            Term::Lambda { erased, name, body, annotation } => Term::Lambda {
                erased: *erased,
                name: clone_name(name),
                body: Box::new((**body).copy_term()),
                annotation: clone_annotation(annotation),
            },
            Term::Application { erased, function, argument, annotation } => Term::Application {
                erased: *erased,
                function: Box::new((**function).copy_term()),
                argument: Box::new((**argument).copy_term()),
                annotation: clone_annotation(annotation),
            },
            Term::Put(t, a) => Term::Put(Box::new((**t).copy_term()), clone_annotation(a)),
            Term::Duplication { binder, expression, body, annotation } => Term::Duplication {
                binder: clone_name(binder),
                expression: Box::new((**expression).copy_term()),
                body: Box::new((**body).copy_term()),
                annotation: clone_annotation(annotation),
            },
            Term::Reference(r, a) => Term::Reference(r.clone(), clone_annotation(a)),
            Term::Universe(a) => Term::Universe(clone_annotation(a)),
            Term::Function { erased, name, self_name, argument_type, return_type, annotation } =>
                Term::Function {
                    erased: *erased,
                    name: clone_name(name),
                    self_name: clone_name(self_name),
                    argument_type: Box::new((**argument_type).copy_term()),
                    return_type: Box::new((**return_type).copy_term()),
                    annotation: clone_annotation(annotation),
                },
            Term::Wrap(t, a) => Term::Wrap(Box::new((**t).copy_term()), clone_annotation(a)),
            Term::Hole(a) => Term::Hole(clone_annotation(a)),
            Term::Compressed(c) => Term::Compressed(c.duplicate()),
        }
    }
}

impl<T: Clone> Clone for Term<T> {
    /// Copies the term; the copy has the same model. Annotations are copied
    /// with `T::clone`.
    fn clone(&self) -> (res: Self)
        ensures
            res@ == self@,
            (self is Compressed) == (res is Compressed),
            forall|z: T| clone_keeps(z) && term_anns_all(*self, z) ==> #[trigger] term_anns_all(res, z),
    {
        let res = self.copy_term();
        proof {
            assert forall|z: T| clone_keeps(z) && term_anns_all(*self, z) implies #[trigger] term_anns_all(
                res,
                z,
            ) by {
                lemma_term_copied_anns(*self, res, z);
            }
        }
        res
    }
}


impl<T> Path<T> {
    pub fn is_top(&self) -> (res: bool)
        ensures
            res == (*self is Top),
    {
        match self {
            Path::Top => true,
            _ => false,
        }
    }
}

impl<T> Cursor<T> {
    /// The cursor on a term that is not a literal.
    fn from_plain(term: Term<T>, up: Path<T>) -> (res: Cursor<T>)
        requires
            !(term is Compressed),
        ensures
            res.focus() == term,
            res.up() == up,
    {
        match term {
            Term::Lambda { erased, name, body, annotation } => Cursor::Lambda(
                LambdaCursor { erased, name, body: *body, up, annotation },
            ),
            Term::Application { erased, function, argument, annotation } => Cursor::Application(
                ApplicationCursor { erased, function: *function, argument: *argument, up, annotation },
            ),
            Term::Put(term, annotation) => Cursor::Put(PutCursor { term: *term, up, annotation }),
            Term::Duplication { binder, expression, body, annotation } => Cursor::Duplication(
                DuplicationCursor { binder, expression: *expression, body: *body, up, annotation },
            ),
            Term::Reference(name, annotation) => Cursor::Reference(
                ReferenceCursor { name, up, annotation },
            ),
            Term::Universe(annotation) => Cursor::Universe(UniverseCursor { path: up, annotation }),
            Term::Function { erased, name, self_name, argument_type, return_type, annotation } =>
                Cursor::Function(
                FunctionCursor {
                    erased,
                    binder: name,
                    self_binder: self_name,
                    argument_type: *argument_type,
                    return_type: *return_type,
                    up,
                    annotation,
                },
            ),
            Term::Wrap(term, annotation) => Cursor::Wrap(WrapCursor { term: *term, up, annotation }),
            Term::Hole(annotation) => Cursor::Hole(HoleCursor { up, annotation }),
            Term::Compressed(_) => vstd::pervasive::unreached(),
        }
    }
}


impl<T: Zero + Clone> Cursor<T> {
    /// The cursor on `term` at the position that `up` leads to. A literal is
    /// expanded by one step first.
    pub fn from_term_and_path(term: Term<T>, up: Path<T>) -> (res: Cursor<T>)
        ensures
            placed(res, term, up),
            term is Compressed ==> forall|z: T| blank(z) ==> #[trigger] term_anns_all(res.focus(), z),
    {
        match term {
            Term::Compressed(data) => Cursor::from_plain(data.expand(), up),
            _ => Cursor::from_plain(term, up),
        }
    }

    /// The cursor on the root of `term`.
    pub fn from_term(term: Term<T>) -> (res: Cursor<T>)
        ensures
            placed(res, term, Path::Top),
            term is Compressed ==> forall|z: T| blank(z) ==> #[trigger] term_anns_all(res.focus(), z),
    {
        Cursor::from_term_and_path(term, Path::Top)
    }
}

impl<T> Cursor<T> {
    /// The cursor on the parent of `down`, the focus that `up` leads to; at
    /// the top there is none, and both are handed back.
    fn ascend_helper(up: Path<T>, down: Term<T>) -> (res: Result<Cursor<T>, (Path<T>, Term<T>)>)
        ensures
            up is Top ==> res == Err::<Cursor<T>, (Path<T>, Term<T>)>((up, down)),
            !(up is Top) ==> res is Ok && res->Ok_0.focus() == fill(up, down) && res->Ok_0.up()
                == parent(up),
    {
        match up {
            Path::Top => Err((up, down)),
            Path::Lambda { erased, name, up, annotation } => Ok(
                Cursor::Lambda(LambdaCursor { erased, name, body: down, up: *up, annotation }),
            ),
            Path::ApplicationFunction { erased, argument, up, annotation } => Ok(
                Cursor::Application(
                    ApplicationCursor { erased, function: down, argument, up: *up, annotation },
                ),
            ),
            Path::ApplicationArgument { erased, function, up, annotation } => Ok(
                Cursor::Application(
                    ApplicationCursor { erased, function, argument: down, up: *up, annotation },
                ),
            ),
            Path::Put { up, annotation } => Ok(
                Cursor::Put(PutCursor { term: down, up: *up, annotation }),
            ),
            Path::Reference { name, up, annotation } => Ok(
                Cursor::Reference(ReferenceCursor { name, up: *up, annotation }),
            ),
            Path::DuplicationExpression { binder, body, up, annotation } => Ok(
                Cursor::Duplication(
                    DuplicationCursor { binder, expression: down, body, up: *up, annotation },
                ),
            ),
            Path::DuplicationBody { binder, expression, up, annotation } => Ok(
                Cursor::Duplication(
                    DuplicationCursor { binder, expression, body: down, up: *up, annotation },
                ),
            ),
            Path::Universe { up, annotation } => Ok(
                Cursor::Universe(UniverseCursor { path: *up, annotation }),
            ),
            Path::FunctionArgumentType { erased, name, self_name, return_type, up, annotation } =>
                Ok(
                Cursor::Function(
                    FunctionCursor {
                        erased,
                        binder: name,
                        self_binder: self_name,
                        argument_type: down,
                        return_type,
                        up: *up,
                        annotation,
                    },
                ),
            ),
            Path::FunctionReturnType { erased, name, self_name, argument_type, up, annotation } =>
                Ok(
                Cursor::Function(
                    FunctionCursor {
                        erased,
                        binder: name,
                        self_binder: self_name,
                        argument_type,
                        return_type: down,
                        up: *up,
                        annotation,
                    },
                ),
            ),
            Path::Wrap { up, annotation } => Ok(
                Cursor::Wrap(WrapCursor { term: down, up: *up, annotation }),
            ),
            Path::Hole { up, annotation } => Ok(Cursor::Hole(HoleCursor { up: *up, annotation })),
        }
    }

    /// The cursor one step up from the focus `down` at `up`; at the top, the
    /// cursor on `down` itself.
    fn rise(up: Path<T>, down: Term<T>) -> (res: Cursor<T>)
        requires
            !(down is Compressed),
        ensures
            up is Top ==> res.focus() == down && res.up() == up,
            !(up is Top) ==> res.focus() == fill(up, down) && res.up() == parent(up),
    {
        match Cursor::ascend_helper(up, down) {
            Ok(cursor) => cursor,
            Err((path, term)) => Cursor::from_plain(term, path),
        }
    }

    /// The cursor on the parent of the focus; at the top, the same cursor.
    pub fn ascend(self) -> (res: Cursor<T>)
        ensures
            ascended(self, res),
    {
        proof {
            lemma_cursor_determined(self);
        }
        match self {
            Cursor::Lambda(cursor) => cursor.ascend(),
            Cursor::Application(cursor) => cursor.ascend(),
            Cursor::Put(cursor) => cursor.ascend(),
            Cursor::Reference(cursor) => cursor.ascend(),
            Cursor::Duplication(cursor) => cursor.ascend(),
            Cursor::Universe(cursor) => cursor.ascend(),
            Cursor::Function(cursor) => cursor.ascend(),
            Cursor::Wrap(cursor) => cursor.ascend(),
            Cursor::Hole(cursor) => cursor.ascend(),
        }
    }
}

/// A cursor is determined by the term in focus and the path above it.
pub proof fn lemma_cursor_determined<T>(c: Cursor<T>)
    ensures
        forall|d: Cursor<T>| d.focus() == c.focus() && d.up() == c.up() ==> d == c,
{
}

impl<T> LambdaCursor<T> {
    pub fn annotation(&self) -> (res: &T)
        ensures
            *res == self.annotation,
    {
        &self.annotation
    }

    pub fn annotation_mut(&mut self) -> (res: &mut T)
        ensures
            *res == old(self).annotation,
            *final(self) == (LambdaCursor { erased: old(self).erased, name: old(self).name, body: old(self).body, up: old(self).up, annotation: *final(res) }),
    {
        &mut self.annotation
    }

    pub fn erased(&self) -> (res: bool)
        ensures
            res == self.erased,
    {
        self.erased
    }

    pub fn erased_mut(&mut self) -> (res: &mut bool)
        ensures
            *res == old(self).erased,
            *final(self) == (LambdaCursor { erased: *final(res), name: old(self).name, body: old(self).body, up: old(self).up, annotation: old(self).annotation }),
    {
        &mut self.erased
    }

    /// Replaces the focused node with a hole annotated with `annotation`.
    pub fn into_hole(self, annotation: T) -> (res: HoleCursor<T>)
        ensures
            res.up == self.up,
            res.annotation == annotation,
    {
        HoleCursor { up: self.up, annotation }
    }

}

impl<T> ApplicationCursor<T> {
    pub fn annotation(&self) -> (res: &T)
        ensures
            *res == self.annotation,
    {
        &self.annotation
    }

    pub fn annotation_mut(&mut self) -> (res: &mut T)
        ensures
            *res == old(self).annotation,
            *final(self) == (ApplicationCursor { erased: old(self).erased, function: old(self).function, argument: old(self).argument, up: old(self).up, annotation: *final(res) }),
    {
        &mut self.annotation
    }

    pub fn erased(&self) -> (res: bool)
        ensures
            res == self.erased,
    {
        self.erased
    }

    pub fn erased_mut(&mut self) -> (res: &mut bool)
        ensures
            *res == old(self).erased,
            *final(self) == (ApplicationCursor { erased: *final(res), function: old(self).function, argument: old(self).argument, up: old(self).up, annotation: old(self).annotation }),
    {
        &mut self.erased
    }

    /// Replaces the focused node with a hole annotated with `annotation`.
    pub fn into_hole(self, annotation: T) -> (res: HoleCursor<T>)
        ensures
            res.up == self.up,
            res.annotation == annotation,
    {
        HoleCursor { up: self.up, annotation }
    }

}

impl<T> PutCursor<T> {
    pub fn annotation(&self) -> (res: &T)
        ensures
            *res == self.annotation,
    {
        &self.annotation
    }

    pub fn annotation_mut(&mut self) -> (res: &mut T)
        ensures
            *res == old(self).annotation,
            *final(self) == (PutCursor { term: old(self).term, up: old(self).up, annotation: *final(res) }),
    {
        &mut self.annotation
    }

    /// Replaces the focused node with a hole annotated with `annotation`.
    pub fn into_hole(self, annotation: T) -> (res: HoleCursor<T>)
        ensures
            res.up == self.up,
            res.annotation == annotation,
    {
        HoleCursor { up: self.up, annotation }
    }

}

impl<T> ReferenceCursor<T> {
    pub fn annotation(&self) -> (res: &T)
        ensures
            *res == self.annotation,
    {
        &self.annotation
    }

    pub fn annotation_mut(&mut self) -> (res: &mut T)
        ensures
            *res == old(self).annotation,
            *final(self) == (ReferenceCursor { name: old(self).name, up: old(self).up, annotation: *final(res) }),
    {
        &mut self.annotation
    }

    /// Replaces the focused node with a hole annotated with `annotation`.
    pub fn into_hole(self, annotation: T) -> (res: HoleCursor<T>)
        ensures
            res.up == self.up,
            res.annotation == annotation,
    {
        HoleCursor { up: self.up, annotation }
    }

}

impl<T> DuplicationCursor<T> {
    pub fn annotation(&self) -> (res: &T)
        ensures
            *res == self.annotation,
    {
        &self.annotation
    }

    pub fn annotation_mut(&mut self) -> (res: &mut T)
        ensures
            *res == old(self).annotation,
            *final(self) == (DuplicationCursor { binder: old(self).binder, expression: old(self).expression, body: old(self).body, up: old(self).up, annotation: *final(res) }),
    {
        &mut self.annotation
    }

    /// Replaces the focused node with a hole annotated with `annotation`.
    pub fn into_hole(self, annotation: T) -> (res: HoleCursor<T>)
        ensures
            res.up == self.up,
            res.annotation == annotation,
    {
        HoleCursor { up: self.up, annotation }
    }

}

impl<T> UniverseCursor<T> {
    pub fn annotation(&self) -> (res: &T)
        ensures
            *res == self.annotation,
    {
        &self.annotation
    }

    pub fn annotation_mut(&mut self) -> (res: &mut T)
        ensures
            *res == old(self).annotation,
            *final(self) == (UniverseCursor { path: old(self).path, annotation: *final(res) }),
    {
        &mut self.annotation
    }

    /// Replaces the focused node with a hole annotated with `annotation`.
    pub fn into_hole(self, annotation: T) -> (res: HoleCursor<T>)
        ensures
            res.up == self.path,
            res.annotation == annotation,
    {
        HoleCursor { up: self.path, annotation }
    }

}

impl<T> FunctionCursor<T> {
    pub fn annotation(&self) -> (res: &T)
        ensures
            *res == self.annotation,
    {
        &self.annotation
    }

    pub fn annotation_mut(&mut self) -> (res: &mut T)
        ensures
            *res == old(self).annotation,
            *final(self) == (FunctionCursor { erased: old(self).erased, binder: old(self).binder, self_binder: old(self).self_binder, argument_type: old(self).argument_type, return_type: old(self).return_type, up: old(self).up, annotation: *final(res) }),
    {
        &mut self.annotation
    }

    pub fn erased(&self) -> (res: bool)
        ensures
            res == self.erased,
    {
        self.erased
    }

    pub fn erased_mut(&mut self) -> (res: &mut bool)
        ensures
            *res == old(self).erased,
            *final(self) == (FunctionCursor { erased: *final(res), binder: old(self).binder, self_binder: old(self).self_binder, argument_type: old(self).argument_type, return_type: old(self).return_type, up: old(self).up, annotation: old(self).annotation }),
    {
        &mut self.erased
    }

    /// Replaces the focused node with a hole annotated with `annotation`.
    pub fn into_hole(self, annotation: T) -> (res: HoleCursor<T>)
        ensures
            res.up == self.up,
            res.annotation == annotation,
    {
        HoleCursor { up: self.up, annotation }
    }

}

impl<T> WrapCursor<T> {
    pub fn annotation(&self) -> (res: &T)
        ensures
            *res == self.annotation,
    {
        &self.annotation
    }

    pub fn annotation_mut(&mut self) -> (res: &mut T)
        ensures
            *res == old(self).annotation,
            *final(self) == (WrapCursor { term: old(self).term, up: old(self).up, annotation: *final(res) }),
    {
        &mut self.annotation
    }

    /// Replaces the focused node with a hole annotated with `annotation`.
    pub fn into_hole(self, annotation: T) -> (res: HoleCursor<T>)
        ensures
            res.up == self.up,
            res.annotation == annotation,
    {
        HoleCursor { up: self.up, annotation }
    }

}

impl<T> HoleCursor<T> {
    pub fn annotation(&self) -> (res: &T)
        ensures
            *res == self.annotation,
    {
        &self.annotation
    }

    pub fn annotation_mut(&mut self) -> (res: &mut T)
        ensures
            *res == old(self).annotation,
            *final(self) == (HoleCursor { up: old(self).up, annotation: *final(res) }),
    {
        &mut self.annotation
    }

}

impl<T> LambdaCursor<T> {
    /// The cursor on the parent of this node; at the top, this node again.
    pub fn ascend(self) -> (res: Cursor<T>)
        ensures
            ascended(Cursor::Lambda(self), res),
    {
        proof {
            lemma_cursor_determined(Cursor::Lambda(self));
        }
        Cursor::rise(self.up, Term::Lambda { erased: self.erased, name: self.name, body: Box::new(self.body), annotation: self.annotation })
    }
}

impl<T> ApplicationCursor<T> {
    /// The cursor on the parent of this node; at the top, this node again.
    pub fn ascend(self) -> (res: Cursor<T>)
        ensures
            ascended(Cursor::Application(self), res),
    {
        proof {
            lemma_cursor_determined(Cursor::Application(self));
        }
        Cursor::rise(self.up, Term::Application { erased: self.erased, function: Box::new(self.function), argument: Box::new(self.argument), annotation: self.annotation })
    }
}

impl<T> PutCursor<T> {
    /// The cursor on the parent of this node; at the top, this node again.
    pub fn ascend(self) -> (res: Cursor<T>)
        ensures
            ascended(Cursor::Put(self), res),
    {
        proof {
            lemma_cursor_determined(Cursor::Put(self));
        }
        Cursor::rise(self.up, Term::Put(Box::new(self.term), self.annotation))
    }
}

impl<T> ReferenceCursor<T> {
    /// The cursor on the parent of this node; at the top, this node again.
    pub fn ascend(self) -> (res: Cursor<T>)
        ensures
            ascended(Cursor::Reference(self), res),
    {
        proof {
            lemma_cursor_determined(Cursor::Reference(self));
        }
        Cursor::rise(self.up, Term::Reference(self.name, self.annotation))
    }
}

impl<T> DuplicationCursor<T> {
    /// The cursor on the parent of this node; at the top, this node again.
    pub fn ascend(self) -> (res: Cursor<T>)
        ensures
            ascended(Cursor::Duplication(self), res),
    {
        proof {
            lemma_cursor_determined(Cursor::Duplication(self));
        }
        Cursor::rise(self.up, Term::Duplication { binder: self.binder, expression: Box::new(self.expression), body: Box::new(self.body), annotation: self.annotation })
    }
}

impl<T> UniverseCursor<T> {
    /// The cursor on the parent of this node; at the top, this node again.
    pub fn ascend(self) -> (res: Cursor<T>)
        ensures
            ascended(Cursor::Universe(self), res),
    {
        proof {
            lemma_cursor_determined(Cursor::Universe(self));
        }
        Cursor::rise(self.path, Term::Universe(self.annotation))
    }
}

impl<T> FunctionCursor<T> {
    /// The cursor on the parent of this node; at the top, this node again.
    pub fn ascend(self) -> (res: Cursor<T>)
        ensures
            ascended(Cursor::Function(self), res),
    {
        proof {
            lemma_cursor_determined(Cursor::Function(self));
        }
        Cursor::rise(self.up, Term::Function { erased: self.erased, name: self.binder, self_name: self.self_binder, argument_type: Box::new(self.argument_type), return_type: Box::new(self.return_type), annotation: self.annotation })
    }
}

impl<T> WrapCursor<T> {
    /// The cursor on the parent of this node; at the top, this node again.
    pub fn ascend(self) -> (res: Cursor<T>)
        ensures
            ascended(Cursor::Wrap(self), res),
    {
        proof {
            lemma_cursor_determined(Cursor::Wrap(self));
        }
        Cursor::rise(self.up, Term::Wrap(Box::new(self.term), self.annotation))
    }
}

impl<T> HoleCursor<T> {
    /// The cursor on the parent of this node; at the top, this node again.
    pub fn ascend(self) -> (res: Cursor<T>)
        ensures
            ascended(Cursor::Hole(self), res),
    {
        proof {
            lemma_cursor_determined(Cursor::Hole(self));
        }
        Cursor::rise(self.up, Term::Hole(self.annotation))
    }
}

impl<T> LambdaCursor<T> {
    pub fn with_name(self, name: Option<String>) -> (res: Self)
        ensures
            res == (LambdaCursor { name, ..self }),
    {
        LambdaCursor { name, ..self }
    }

    pub fn with_body(self, body: Term<T>) -> (res: Self)
        ensures
            res == (LambdaCursor { body, ..self }),
    {
        LambdaCursor { body, ..self }
    }

    pub fn name(&self) -> (res: Option<&str>)
        ensures
            opt_str(res) == name_view(self.name),
    {
        as_opt_str(&self.name)
    }
}

impl<T: Zero + Clone> LambdaCursor<T> {
    /// The cursor on the body.
    pub fn body(self) -> (res: Cursor<T>)
        ensures
            placed(
                res,
                self.body,
                Path::Lambda {
                    erased: self.erased,
                    name: self.name,
                    up: Box::new(self.up),
                    annotation: self.annotation,
                },
            ),
    {
        Cursor::from_term_and_path(
            self.body,
            Path::Lambda {
                erased: self.erased,
                name: self.name,
                up: Box::new(self.up),
                annotation: self.annotation,
            },
        )
    }
}

impl<T> ApplicationCursor<T> {
    pub fn with_function(self, function: Term<T>) -> (res: Self)
        ensures
            res == (ApplicationCursor { function, ..self }),
    {
        ApplicationCursor { function, ..self }
    }

    pub fn with_argument(self, argument: Term<T>) -> (res: Self)
        ensures
            res == (ApplicationCursor { argument, ..self }),
    {
        ApplicationCursor { argument, ..self }
    }
}

impl<T: Zero + Clone> ApplicationCursor<T> {
    /// The cursor on the function.
    pub fn function(self) -> (res: Cursor<T>)
        ensures
            placed(
                res,
                self.function,
                Path::ApplicationFunction {
                    erased: self.erased,
                    argument: self.argument,
                    up: Box::new(self.up),
                    annotation: self.annotation,
                },
            ),
    {
        Cursor::from_term_and_path(
            self.function,
            Path::ApplicationFunction {
                erased: self.erased,
                argument: self.argument,
                up: Box::new(self.up),
                annotation: self.annotation,
            },
        )
    }

    /// The cursor on the argument.
    pub fn argument(self) -> (res: Cursor<T>)
        ensures
            placed(
                res,
                self.argument,
                Path::ApplicationArgument {
                    erased: self.erased,
                    function: self.function,
                    up: Box::new(self.up),
                    annotation: self.annotation,
                },
            ),
    {
        Cursor::from_term_and_path(
            self.argument,
            Path::ApplicationArgument {
                erased: self.erased,
                function: self.function,
                up: Box::new(self.up),
                annotation: self.annotation,
            },
        )
    }
}

impl<T> PutCursor<T> {
    pub fn with_term(self, term: Term<T>) -> (res: Self)
        ensures
            res == (PutCursor { term, ..self }),
    {
        PutCursor { term, ..self }
    }
}

impl<T: Zero + Clone> PutCursor<T> {
    /// The cursor on the term under the `put`.
    pub fn term(self) -> (res: Cursor<T>)
        ensures
            placed(res, self.term, Path::Put { up: Box::new(self.up), annotation: self.annotation }),
    {
        Cursor::from_term_and_path(
            self.term,
            Path::Put { up: Box::new(self.up), annotation: self.annotation },
        )
    }
}

impl<T> ReferenceCursor<T> {
    pub fn with_name(self, name: String) -> (res: Self)
        ensures
            res == (ReferenceCursor { name, ..self }),
    {
        ReferenceCursor { name, ..self }
    }

    pub fn name(&self) -> (res: &str)
        ensures
            res@ == self.name@,
    {
        self.name.as_str()
    }
}

impl<T> DuplicationCursor<T> {
    pub fn binder(&self) -> (res: Option<&str>)
        ensures
            opt_str(res) == name_view(self.binder),
    {
        as_opt_str(&self.binder)
    }

    pub fn with_expression(self, expression: Term<T>) -> (res: Self)
        ensures
            res == (DuplicationCursor { expression, ..self }),
    {
        DuplicationCursor { expression, ..self }
    }

    pub fn with_body(self, body: Term<T>) -> (res: Self)
        ensures
            res == (DuplicationCursor { body, ..self }),
    {
        DuplicationCursor { body, ..self }
    }

    pub fn with_binder(self, binder: Option<String>) -> (res: Self)
        ensures
            res == (DuplicationCursor { binder, ..self }),
    {
        DuplicationCursor { binder, ..self }
    }
}

impl<T: Zero + Clone> DuplicationCursor<T> {
    /// The cursor on the duplicated expression.
    pub fn expression(self) -> (res: Cursor<T>)
        ensures
            placed(
                res,
                self.expression,
                Path::DuplicationExpression {
                    binder: self.binder,
                    body: self.body,
                    up: Box::new(self.up),
                    annotation: self.annotation,
                },
            ),
    {
        Cursor::from_term_and_path(
            self.expression,
            Path::DuplicationExpression {
                binder: self.binder,
                body: self.body,
                up: Box::new(self.up),
                annotation: self.annotation,
            },
        )
    }

    /// The cursor on the body.
    pub fn body(self) -> (res: Cursor<T>)
        ensures
            placed(
                res,
                self.body,
                Path::DuplicationBody {
                    binder: self.binder,
                    expression: self.expression,
                    up: Box::new(self.up),
                    annotation: self.annotation,
                },
            ),
    {
        Cursor::from_term_and_path(
            self.body,
            Path::DuplicationBody {
                binder: self.binder,
                expression: self.expression,
                up: Box::new(self.up),
                annotation: self.annotation,
            },
        )
    }
}

impl<T> FunctionCursor<T> {
    pub fn binder(&self) -> (res: Option<&str>)
        ensures
            opt_str(res) == name_view(self.binder),
    {
        as_opt_str(&self.binder)
    }

    pub fn self_binder(&self) -> (res: Option<&str>)
        ensures
            opt_str(res) == name_view(self.self_binder),
    {
        as_opt_str(&self.self_binder)
    }

    pub fn with_argument_type(self, argument_type: Term<T>) -> (res: Self)
        ensures
            res == (FunctionCursor { argument_type, ..self }),
    {
        FunctionCursor { argument_type, ..self }
    }

    pub fn with_return_type(self, return_type: Term<T>) -> (res: Self)
        ensures
            res == (FunctionCursor { return_type, ..self }),
    {
        FunctionCursor { return_type, ..self }
    }

    pub fn with_name(self, name: Option<String>) -> (res: Self)
        ensures
            res == (FunctionCursor { binder: name, ..self }),
    {
        FunctionCursor { binder: name, ..self }
    }

    pub fn with_self_name(self, self_name: Option<String>) -> (res: Self)
        ensures
            res == (FunctionCursor { self_binder: self_name, ..self }),
    {
        FunctionCursor { self_binder: self_name, ..self }
    }
}

impl<T: Zero + Clone> FunctionCursor<T> {
    /// The cursor on the argument type.
    pub fn argument_type(self) -> (res: Cursor<T>)
        ensures
            placed(
                res,
                self.argument_type,
                Path::FunctionArgumentType {
                    erased: self.erased,
                    name: self.binder,
                    self_name: self.self_binder,
                    return_type: self.return_type,
                    up: Box::new(self.up),
                    annotation: self.annotation,
                },
            ),
    {
        Cursor::from_term_and_path(
            self.argument_type,
            Path::FunctionArgumentType {
                erased: self.erased,
                name: self.binder,
                self_name: self.self_binder,
                return_type: self.return_type,
                up: Box::new(self.up),
                annotation: self.annotation,
            },
        )
    }

    /// The cursor on the return type.
    pub fn return_type(self) -> (res: Cursor<T>)
        ensures
            placed(
                res,
                self.return_type,
                Path::FunctionReturnType {
                    erased: self.erased,
                    name: self.binder,
                    self_name: self.self_binder,
                    argument_type: self.argument_type,
                    up: Box::new(self.up),
                    annotation: self.annotation,
                },
            ),
    {
        Cursor::from_term_and_path(
            self.return_type,
            Path::FunctionReturnType {
                erased: self.erased,
                name: self.binder,
                self_name: self.self_binder,
                argument_type: self.argument_type,
                up: Box::new(self.up),
                annotation: self.annotation,
            },
        )
    }
}

impl<T> WrapCursor<T> {
    pub fn with_term(self, term: Term<T>) -> (res: Self)
        ensures
            res == (WrapCursor { term, ..self }),
    {
        WrapCursor { term, ..self }
    }
}

impl<T: Zero + Clone> WrapCursor<T> {
    /// The cursor on the wrapped term.
    pub fn term(self) -> (res: Cursor<T>)
        ensures
            placed(res, self.term, Path::Wrap { up: Box::new(self.up), annotation: self.annotation }),
    {
        Cursor::from_term_and_path(
            self.term,
            Path::Wrap { up: Box::new(self.up), annotation: self.annotation },
        )
    }
}

impl<T> HoleCursor<T> {
    pub fn new(up: Path<T>, annotation: T) -> (res: Self)
        ensures
            res.up == up,
            res.annotation == annotation,
    {
        HoleCursor { up, annotation }
    }
}

/// The model of an optional borrowed name.
pub open spec fn opt_str(n: Option<&str>) -> Option<Seq<char>> {
    match n {
        Some(s) => Some(s@),
        None => None,
    }
}

fn as_opt_str(n: &Option<String>) -> (res: Option<&str>)
    ensures
        opt_str(res) == name_view(*n),
{
    match n {
        Some(s) => Some(s.as_str()),
        None => None,
    }
}


impl<T> Cursor<T> {
    /// The annotation of the focused node.
    pub open spec fn annotation_of(self) -> T {
        match self {
            Cursor::Lambda(c) => c.annotation,
            Cursor::Application(c) => c.annotation,
            Cursor::Put(c) => c.annotation,
            Cursor::Reference(c) => c.annotation,
            Cursor::Duplication(c) => c.annotation,
            Cursor::Universe(c) => c.annotation,
            Cursor::Function(c) => c.annotation,
            Cursor::Wrap(c) => c.annotation,
            Cursor::Hole(c) => c.annotation,
        }
    }

    /// The same cursor with the annotation of the focused node replaced.
    pub open spec fn with_annotation(self, a: T) -> Cursor<T> {
        match self {
            Cursor::Lambda(c) => Cursor::Lambda(LambdaCursor { annotation: a, ..c }),
            Cursor::Application(c) => Cursor::Application(ApplicationCursor { annotation: a, ..c }),
            Cursor::Put(c) => Cursor::Put(PutCursor { annotation: a, ..c }),
            Cursor::Reference(c) => Cursor::Reference(ReferenceCursor { annotation: a, ..c }),
            Cursor::Duplication(c) => Cursor::Duplication(DuplicationCursor { annotation: a, ..c }),
            Cursor::Universe(c) => Cursor::Universe(UniverseCursor { annotation: a, ..c }),
            Cursor::Function(c) => Cursor::Function(FunctionCursor { annotation: a, ..c }),
            Cursor::Wrap(c) => Cursor::Wrap(WrapCursor { annotation: a, ..c }),
            Cursor::Hole(c) => Cursor::Hole(HoleCursor { annotation: a, ..c }),
        }
    }

    /// The same cursor with the path above the focus replaced.
    pub open spec fn with_up(self, p: Path<T>) -> Cursor<T> {
        match self {
            Cursor::Lambda(c) => Cursor::Lambda(LambdaCursor { up: p, ..c }),
            Cursor::Application(c) => Cursor::Application(ApplicationCursor { up: p, ..c }),
            Cursor::Put(c) => Cursor::Put(PutCursor { up: p, ..c }),
            Cursor::Reference(c) => Cursor::Reference(ReferenceCursor { up: p, ..c }),
            Cursor::Duplication(c) => Cursor::Duplication(DuplicationCursor { up: p, ..c }),
            Cursor::Universe(c) => Cursor::Universe(UniverseCursor { path: p, ..c }),
            Cursor::Function(c) => Cursor::Function(FunctionCursor { up: p, ..c }),
            Cursor::Wrap(c) => Cursor::Wrap(WrapCursor { up: p, ..c }),
            Cursor::Hole(c) => Cursor::Hole(HoleCursor { up: p, ..c }),
        }
    }

    pub fn annotation(&self) -> (res: &T)
        ensures
            *res == self.annotation_of(),
    {
        match self {
            Cursor::Lambda(c) => &c.annotation,
            Cursor::Application(c) => &c.annotation,
            Cursor::Put(c) => &c.annotation,
            Cursor::Reference(c) => &c.annotation,
            Cursor::Duplication(c) => &c.annotation,
            Cursor::Universe(c) => &c.annotation,
            Cursor::Function(c) => &c.annotation,
            Cursor::Wrap(c) => &c.annotation,
            Cursor::Hole(c) => &c.annotation,
        }
    }

    pub fn annotation_mut(&mut self) -> (res: &mut T)
        ensures
            *res == old(self).annotation_of(),
            *final(self) == old(self).with_annotation(*final(res)),
    {
        match self {
            Cursor::Lambda(c) => &mut c.annotation,
            Cursor::Application(c) => &mut c.annotation,
            Cursor::Put(c) => &mut c.annotation,
            Cursor::Reference(c) => &mut c.annotation,
            Cursor::Duplication(c) => &mut c.annotation,
            Cursor::Universe(c) => &mut c.annotation,
            Cursor::Function(c) => &mut c.annotation,
            Cursor::Wrap(c) => &mut c.annotation,
            Cursor::Hole(c) => &mut c.annotation,
        }
    }

    pub fn is_top(&self) -> (res: bool)
        ensures
            res == (self.up() is Top),
    {
        self.path().is_top()
    }

    pub fn path(&self) -> (res: &Path<T>)
        ensures
            *res == self.up(),
    {
        match self {
            Cursor::Lambda(c) => &c.up,
            Cursor::Application(c) => &c.up,
            Cursor::Put(c) => &c.up,
            Cursor::Reference(c) => &c.up,
            Cursor::Duplication(c) => &c.up,
            Cursor::Universe(c) => &c.path,
            Cursor::Function(c) => &c.up,
            Cursor::Wrap(c) => &c.up,
            Cursor::Hole(c) => &c.up,
        }
    }

    pub fn path_mut(&mut self) -> (res: &mut Path<T>)
        ensures
            *res == old(self).up(),
            *final(self) == old(self).with_up(*final(res)),
    {
        match self {
            Cursor::Lambda(c) => &mut c.up,
            Cursor::Application(c) => &mut c.up,
            Cursor::Put(c) => &mut c.up,
            Cursor::Reference(c) => &mut c.up,
            Cursor::Duplication(c) => &mut c.up,
            Cursor::Universe(c) => &mut c.path,
            Cursor::Function(c) => &mut c.up,
            Cursor::Wrap(c) => &mut c.up,
            Cursor::Hole(c) => &mut c.up,
        }
    }

    /// The focused term, without the path above it.
    pub fn into_focus(self) -> (res: Term<T>)
        ensures
            res == self.focus(),
    {
        match self {
            Cursor::Lambda(c) => Term::Lambda {
                erased: c.erased,
                name: c.name,
                body: Box::new(c.body),
                annotation: c.annotation,
            },
            Cursor::Application(c) => Term::Application {
                erased: c.erased,
                function: Box::new(c.function),
                argument: Box::new(c.argument),
                annotation: c.annotation,
            },
            Cursor::Put(c) => Term::Put(Box::new(c.term), c.annotation),
            Cursor::Reference(c) => Term::Reference(c.name, c.annotation),
            Cursor::Duplication(c) => Term::Duplication {
                binder: c.binder,
                expression: Box::new(c.expression),
                body: Box::new(c.body),
                annotation: c.annotation,
            },
            Cursor::Universe(c) => Term::Universe(c.annotation),
            Cursor::Function(c) => Term::Function {
                erased: c.erased,
                name: c.binder,
                self_name: c.self_binder,
                argument_type: Box::new(c.argument_type),
                return_type: Box::new(c.return_type),
                annotation: c.annotation,
            },
            Cursor::Wrap(c) => Term::Wrap(Box::new(c.term), c.annotation),
            Cursor::Hole(c) => Term::Hole(c.annotation),
        }
    }
}

/// Ascending never changes the whole term a cursor is a position in.
pub proof fn lemma_ascend_keeps_whole<T>(c: Cursor<T>, r: Cursor<T>)
    requires
        ascended(c, r),
    ensures
        r.whole() == c.whole(),
{
}

/// The cursor on a term at a path is a position in the term that the path
/// and the term make up.
pub proof fn lemma_placed_whole<T>(d: Cursor<T>, t: Term<T>, p: Path<T>)
    requires
        placed(d, t, p),
        !(t is Compressed),
    ensures
        d.whole() == plug(p, t),
{
}

/// Going down to a child and back up again gives the cursor one started
/// from, when the child is not a literal: a literal child comes back expanded
/// by one step.
pub proof fn lemma_descend_then_ascend<T>(c: Cursor<T>, t: Term<T>, p: Path<T>, d: Cursor<T>, r: Cursor<T>)
    requires
        !(p is Top),
        fill(p, t) == c.focus(),
        parent(p) == c.up(),
        !(t is Compressed),
        placed(d, t, p),
        ascended(d, r),
    ensures
        r == c,
        d.whole() == c.whole(),
{
    lemma_cursor_determined(c);
}


/// The steps whose child is not in scope of the node's binders: the
/// expression of a duplication and the argument type of a function.
pub open spec fn unscoped<T>(p: Path<T>) -> bool {
    p is DuplicationExpression || p is FunctionArgumentType
}

/// The names that the node a step describes binds, in the order in which
/// they are listed: a lambda its name, a duplication its binder, a function
/// its name and then its self name.
pub open spec fn step_binders<T>(p: Path<T>) -> Seq<Option<String>> {
    match p {
        Path::Lambda { name, .. } => seq![name],
        Path::DuplicationExpression { binder, .. } => seq![binder],
        Path::DuplicationBody { binder, .. } => seq![binder],
        Path::FunctionArgumentType { name, self_name, .. } => seq![name, self_name],
        Path::FunctionReturnType { name, self_name, .. } => seq![name, self_name],
        _ => Seq::empty(),
    }
}

/// The names that a term binds at its root, as `step_binders` lists them.
pub open spec fn term_binders<T>(t: Term<T>) -> Seq<Option<String>> {
    match t {
        Term::Lambda { name, .. } => seq![name],
        Term::Duplication { binder, .. } => seq![binder],
        Term::Function { name, self_name, .. } => seq![name, self_name],
        _ => Seq::empty(),
    }
}

/// Climbs over the unscoped steps: the first step that is not unscoped, and
/// the last unscoped step passed (`last` if none was).
pub open spec fn skip_unscoped<T>(p: Path<T>, last: Path<T>) -> (Path<T>, Path<T>)
    decreases depth(p),
{
    if unscoped(p) {
        proof {
            lemma_parent_depth(p);
        }
        skip_unscoped(parent(p), p)
    } else {
        (p, last)
    }
}

pub proof fn lemma_skip_depth<T>(p: Path<T>, last: Path<T>)
    ensures
        depth(skip_unscoped(p, last).0) <= depth(p),
        !unscoped(p) ==> skip_unscoped(p, last) == (p, last),
        unscoped(p) ==> depth(skip_unscoped(p, last).0) < depth(p),
        unscoped(p) ==> unscoped(skip_unscoped(p, last).1) && parent(skip_unscoped(p, last).1)
            == skip_unscoped(p, last).0,
    decreases depth(p),
{
    if unscoped(p) {
        lemma_parent_depth(p);
        lemma_skip_depth(parent(p), p);
    }
}

/// The names in scope, walked from a position upwards: `b` are the names
/// bound by the node at that position and `p` the path above it. Each node
/// on the way contributes its binders, except those whose child on the way
/// is unscoped; the walk ends at the top, and ends early, without the node's
/// own names, at an unscoped step just below the top.
pub open spec fn scope_names<T>(p: Path<T>, b: Seq<Option<String>>) -> Seq<Option<String>>
    decreases depth(p),
{
    if unscoped(p) && parent(p) is Top {
        Seq::empty()
    } else if p is Top {
        b
    } else {
        let (q, last) = skip_unscoped(p, p);
        proof {
            lemma_skip_depth(p, p);
            lemma_parent_depth(q);
        }
        if q is Top {
            b + scope_names(q, step_binders(last))
        } else {
            b + scope_names(parent(q), step_binders(q))
        }
    }
}

/// The names in scope at a cursor, innermost first, as its `context` lists
/// them.
pub open spec fn context_names<T>(c: Cursor<T>) -> Seq<Option<String>> {
    if c.up() is Top {
        Seq::empty()
    } else {
        scope_names(c.up(), term_binders(c.focus()))
    }
}

pub(crate) fn copy_name(n: &Option<String>) -> (res: Option<String>)
    ensures
        res == *n,
{
    match n {
        Some(s) => Some(s.clone()),
        None => None,
    }
}

pub(crate) fn step_binder_vec<T>(p: &Path<T>) -> (res: Vec<Option<String>>)
    ensures
        res@ == step_binders(*p),
{
    let mut v: Vec<Option<String>> = Vec::new();
    match p {
        Path::Lambda { name, .. } => v.push(copy_name(name)),
        Path::DuplicationExpression { binder, .. } => v.push(copy_name(binder)),
        Path::DuplicationBody { binder, .. } => v.push(copy_name(binder)),
        Path::FunctionArgumentType { name, self_name, .. } => {
            v.push(copy_name(name));
            v.push(copy_name(self_name));
        },
        Path::FunctionReturnType { name, self_name, .. } => {
            v.push(copy_name(name));
            v.push(copy_name(self_name));
        },
        _ => {},
    }
    proof {
        assert(v@ =~= step_binders(*p));
    }
    v
}

pub(crate) fn parent_of<T>(p: &Path<T>) -> (res: &Path<T>)
    ensures
        *res == parent(*p),
{
    match p {
        Path::Top => p,
        Path::Lambda { up, .. } => &**up,
        Path::ApplicationFunction { up, .. } => &**up,
        Path::ApplicationArgument { up, .. } => &**up,
        Path::Put { up, .. } => &**up,
        Path::Reference { up, .. } => &**up,
        Path::DuplicationExpression { up, .. } => &**up,
        Path::DuplicationBody { up, .. } => &**up,
        Path::Universe { up, .. } => &**up,
        Path::FunctionArgumentType { up, .. } => &**up,
        Path::FunctionReturnType { up, .. } => &**up,
        Path::Wrap { up, .. } => &**up,
        Path::Hole { up, .. } => &**up,
    }
}

pub(crate) fn is_unscoped<T>(p: &Path<T>) -> (res: bool)
    ensures
        res == unscoped(*p),
{
    match p {
        Path::DuplicationExpression { .. } => true,
        Path::FunctionArgumentType { .. } => true,
        _ => false,
    }
}

impl<T> Cursor<T> {
    /// The names bound at the root of the focused term.
    fn focus_binders(&self) -> (res: Vec<Option<String>>)
        ensures
            res@ == term_binders(self.focus()),
    {
        let mut v: Vec<Option<String>> = Vec::new();
        match self {
            Cursor::Lambda(c) => v.push(copy_name(&c.name)),
            Cursor::Duplication(c) => v.push(copy_name(&c.binder)),
            Cursor::Function(c) => {
                v.push(copy_name(&c.binder));
                v.push(copy_name(&c.self_binder));
            },
            _ => {},
        }
        proof {
            assert(v@ =~= term_binders(self.focus()));
        }
        v
    }

    /// The names in scope at the focus, innermost first; a name may occur
    /// more than once, and `None` stands for an unnamed binder.
    pub fn context(&self) -> (res: Vec<Option<String>>)
        ensures
            res@ == context_names(*self),
    {
        let mut out: Vec<Option<String>> = Vec::new();
        let mut p: &Path<T> = self.path();
        if p.is_top() {
            return out;
        }
        let mut b = self.focus_binders();
        loop
            invariant
                out@ + scope_names(*p, b@) == context_names(*self),
            decreases depth(*p),
        {
            if is_unscoped(p) && parent_of(p).is_top() {
                proof {
                    assert(out@ + Seq::empty() =~= out@);
                }
                return out;
            }
            if p.is_top() {
                out.append(&mut b);
                return out;
            }
            let ghost old_out = out@;
            let ghost old_b = b@;
            out.append(&mut b);
            let mut q: &Path<T> = p;
            let mut last: &Path<T> = p;
            while is_unscoped(q)
                invariant
                    skip_unscoped(*q, *last) == skip_unscoped(*p, *p),
                    depth(*q) <= depth(*p),
                    *q != *p ==> unscoped(*last) && parent(*last) == *q,
                    *q == *p ==> *last == *p,
                decreases depth(*q),
            {
                proof {
                    lemma_parent_depth(*q);
                }
                last = q;
                q = parent_of(q);
            }
            proof {
                lemma_skip_depth(*p, *p);
                lemma_skip_depth(*q, *last);
                lemma_parent_depth(*q);
                lemma_parent_depth(*p);
            }
            let ghost p0 = *p;
            if q.is_top() {
                b = step_binder_vec(last);
                p = q;
            } else {
                b = step_binder_vec(q);
                p = parent_of(q);
            }
            proof {
                assert(scope_names(p0, old_b) == old_b + scope_names(*p, b@));
                assert(old_out + (old_b + scope_names(*p, b@)) =~= out@ + scope_names(*p, b@));
            }
        }
    }
}


/// How far a literal is from the plain terms it stands for: sizes expand to
/// plain terms, words to terms with sizes, characters to terms with words,
/// strings to terms with sizes and characters.
pub open spec fn lit_rank(l: Lit) -> nat {
    match l {
        Lit::Size(_) => 1,
        Lit::Word(_) => 2,
        Lit::Char(_) => 3,
        Lit::Str(_) => 4,
    }
}

pub open spec fn max(a: nat, b: nat) -> nat {
    if a < b {
        b
    } else {
        a
    }
}

/// The largest rank of a literal in `t`, or zero.
pub open spec fn rank_bound(t: Tm) -> nat
    decreases t,
{
    match t {
        Tm::Lam { body, .. } => rank_bound(*body),
        Tm::App { function, argument, .. } => max(rank_bound(*function), rank_bound(*argument)),
        Tm::Put(t) => rank_bound(*t),
        Tm::Dup { expression, body, .. } => max(rank_bound(*expression), rank_bound(*body)),
        Tm::Fun { argument_type, return_type, .. } => max(
            rank_bound(*argument_type),
            rank_bound(*return_type),
        ),
        Tm::Wrap(t) => rank_bound(*t),
        Tm::Ann { term, ty, .. } => max(rank_bound(*term), rank_bound(*ty)),
        Tm::Lit(l) => lit_rank(l),
        _ => 0,
    }
}

proof fn lemma_size_tm_rank(n: nat)
    ensures
        rank_bound(size_tm(n)) == 0,
    decreases n,
{
    reveal_with_fuel(rank_bound, 3);
    if n > 0 {
        lemma_size_tm_rank((n - 1) as nat);
    }
}

proof fn lemma_word_step_rank(bits: Seq<bool>)
    ensures
        rank_bound(word_step(bits)) <= 1,
    decreases bits.len(),
{
    reveal_with_fuel(rank_bound, 4);
    if bits.len() > 0 {
        lemma_word_step_rank(bits.take(bits.len() - 1));
    }
}

proof fn lemma_vector_step_rank(ty: Tm, elems: Seq<Tm>, bound: nat)
    requires
        rank_bound(ty) <= bound,
        1 <= bound,
        forall|i: int| 0 <= i < elems.len() ==> rank_bound(#[trigger] elems[i]) <= bound,
    ensures
        rank_bound(vector_step(ty, elems)) <= bound,
    decreases elems.len(),
{
    reveal_with_fuel(rank_bound, 6);
    if elems.len() > 0 {
        assert forall|i: int| 0 <= i < elems.drop_first().len() implies rank_bound(
            #[trigger] elems.drop_first()[i],
        ) <= bound by {
            assert(elems.drop_first()[i] == elems[i + 1]);
        }
        lemma_vector_step_rank(ty, elems.drop_first(), bound);
        assert(rank_bound(elems[0]) <= bound);
    }
}

/// Expanding a literal by one step leaves only literals of lower rank.
pub proof fn lemma_lit_step_rank(l: Lit)
    ensures
        rank_bound(lit_step(l)) < lit_rank(l),
{
    match l {
        Lit::Word(bits) => {
            lemma_word_step_rank(bits);
            assert(lit_step(l) == word_step(bits));
        },
        Lit::Size(n) => lemma_size_tm_rank(n),
        Lit::Char(c) => {
            reveal_with_fuel(rank_bound, 3);
        },
        Lit::Str(s) => {
            let elems = char_lits(s);
            assert forall|i: int| 0 <= i < elems.len() implies rank_bound(#[trigger] elems[i])
                <= 3 by {
                assert(elems[i] == char_lit(s[i]));
            }
            lemma_vector_step_rank(Tm::Ref("Char"@), elems, 3);
            reveal_with_fuel(rank_bound, 3);
        },
    }
}

/// The term with every literal expanded, down to plain terms.
pub open spec fn unfold(t: Tm) -> Tm
    decreases rank_bound(t), t,
{
    match t {
        Tm::Lam { erased, name, body } => Tm::Lam { erased, name, body: Box::new(unfold(*body)) },
        Tm::App { erased, function, argument } => Tm::App {
            erased,
            function: Box::new(unfold(*function)),
            argument: Box::new(unfold(*argument)),
        },
        Tm::Put(t) => Tm::Put(Box::new(unfold(*t))),
        Tm::Dup { binder, expression, body } => Tm::Dup {
            binder,
            expression: Box::new(unfold(*expression)),
            body: Box::new(unfold(*body)),
        },
        Tm::Fun { erased, name, self_name, argument_type, return_type } => Tm::Fun {
            erased,
            name,
            self_name,
            argument_type: Box::new(unfold(*argument_type)),
            return_type: Box::new(unfold(*return_type)),
        },
        Tm::Wrap(t) => Tm::Wrap(Box::new(unfold(*t))),
        Tm::Ann { checked, term, ty } => Tm::Ann {
            checked,
            term: Box::new(unfold(*term)),
            ty: Box::new(unfold(*ty)),
        },
        Tm::Lit(l) => {
            proof {
                lemma_lit_step_rank(l);
            }
            unfold(lit_step(l))
        },
        _ => t,
    }
}


proof fn lemma_unfold_size(n: nat)
    ensures
        unfold(size_tm(n)) == size_tm(n),
    decreases n,
{
    lemma_size_tm_rank(n);
    if n > 0 {
        lemma_unfold_size((n - 1) as nat);
        reveal_with_fuel(unfold, 3);
    }
}

proof fn lemma_unfold_word(bits: Seq<bool>)
    ensures
        unfold(word_step(bits)) == word_tm(bits),
    decreases bits.len(),
{
    if bits.len() > 0 {
        let k = (bits.len() - 1) as nat;
        lemma_unfold_word(bits.take(k as int));
        lemma_unfold_size(k);
        lemma_lit_step_rank(Lit::Size(k));
        reveal_with_fuel(unfold, 4);
        assert(unfold(Tm::Lit(Lit::Size(k))) == unfold(size_tm(k)));
    }
}

proof fn lemma_unfold_vector(ty: Tm, elems: Seq<Tm>)
    ensures
        unfold(vector_step(ty, elems)) == vector_tm(
            unfold(ty),
            Seq::new(elems.len(), |i: int| unfold(elems[i])),
        ),
    decreases elems.len(),
{
    let mapped = Seq::new(elems.len(), |i: int| unfold(elems[i]));
    reveal_with_fuel(unfold, 5);
    if elems.len() > 0 {
        let k = (elems.len() - 1) as nat;
        lemma_unfold_vector(ty, elems.drop_first());
        lemma_unfold_size(k);
        lemma_lit_step_rank(Lit::Size(k));
        assert(unfold(Tm::Lit(Lit::Size(k))) == unfold(size_tm(k)));
        assert(Seq::new(elems.drop_first().len(), |i: int| unfold(elems.drop_first()[i]))
            =~= mapped.drop_first());
        assert(mapped[0] == unfold(elems[0]));
    }
}

/// Expanding a literal step by step down to plain terms gives the term that
/// it stands for.
pub proof fn lemma_unfold_literal(l: Lit)
    ensures
        unfold(Tm::Lit(l)) == lit_tm(l),
{
    lemma_lit_step_rank(l);
    assert(unfold(Tm::Lit(l)) == unfold(lit_step(l)));
    match l {
        Lit::Word(bits) => lemma_unfold_word(bits),
        Lit::Size(n) => lemma_unfold_size(n),
        Lit::Char(c) => {
            lemma_unfold_word(char_bits(c));
            lemma_lit_step_rank(Lit::Word(char_bits(c)));
            reveal_with_fuel(unfold, 3);
        },
        Lit::Str(s) => {
            let n = byte_len(s);
            lemma_unfold_size(n);
            lemma_lit_step_rank(Lit::Size(n));
            lemma_unfold_vector(Tm::Ref("Char"@), char_lits(s));
            let elems = char_lits(s);
            assert forall|i: int| 0 <= i < s.len() implies unfold(elems[i]) == char_tm(s[i]) by {
                lemma_unfold_word(char_bits(s[i]));
                lemma_lit_step_rank(Lit::Char(s[i]));
                lemma_lit_step_rank(Lit::Word(char_bits(s[i])));
                reveal_with_fuel(unfold, 3);
                assert(elems[i] == char_lit(s[i]));
            }
            assert(Seq::new(elems.len(), |i: int| unfold(elems[i])) =~= s.map(
                |i: int, c: char| char_tm(c),
            ));
            reveal_with_fuel(unfold, 3);
        },
    }
}


/// Two paths that agree but for their annotations.
pub open spec fn same_path<T>(a: Path<T>, b: Path<T>) -> bool
    decreases a,
{
    match (a, b) {
        (Path::Top, Path::Top) => true,
        (Path::Lambda { erased: e1, name: n1, up: u1, .. }, Path::Lambda { erased: e2, name: n2, up: u2, .. }) =>
            e1 == e2 && name_view(n1) == name_view(n2) && same_path(*u1, *u2),
        (
            Path::ApplicationFunction { erased: e1, argument: x1, up: u1, .. },
            Path::ApplicationFunction { erased: e2, argument: x2, up: u2, .. },
        ) => e1 == e2 && x1@ == x2@ && same_path(*u1, *u2),
        (
            Path::ApplicationArgument { erased: e1, function: x1, up: u1, .. },
            Path::ApplicationArgument { erased: e2, function: x2, up: u2, .. },
        ) => e1 == e2 && x1@ == x2@ && same_path(*u1, *u2),
        (Path::Put { up: u1, .. }, Path::Put { up: u2, .. }) => same_path(*u1, *u2),
        (Path::Reference { name: n1, up: u1, .. }, Path::Reference { name: n2, up: u2, .. }) =>
            n1@ == n2@ && same_path(*u1, *u2),
        (
            Path::DuplicationExpression { binder: n1, body: x1, up: u1, .. },
            Path::DuplicationExpression { binder: n2, body: x2, up: u2, .. },
        ) => name_view(n1) == name_view(n2) && x1@ == x2@ && same_path(*u1, *u2),
        (
            Path::DuplicationBody { binder: n1, expression: x1, up: u1, .. },
            Path::DuplicationBody { binder: n2, expression: x2, up: u2, .. },
        ) => name_view(n1) == name_view(n2) && x1@ == x2@ && same_path(*u1, *u2),
        (Path::Universe { up: u1, .. }, Path::Universe { up: u2, .. }) => same_path(*u1, *u2),
        (
            Path::FunctionArgumentType { erased: e1, name: n1, self_name: s1, return_type: x1, up: u1, .. },
            Path::FunctionArgumentType { erased: e2, name: n2, self_name: s2, return_type: x2, up: u2, .. },
        ) => e1 == e2 && name_view(n1) == name_view(n2) && name_view(s1) == name_view(s2) && x1@
            == x2@ && same_path(*u1, *u2),
        (
            Path::FunctionReturnType { erased: e1, name: n1, self_name: s1, argument_type: x1, up: u1, .. },
            Path::FunctionReturnType { erased: e2, name: n2, self_name: s2, argument_type: x2, up: u2, .. },
        ) => e1 == e2 && name_view(n1) == name_view(n2) && name_view(s1) == name_view(s2) && x1@
            == x2@ && same_path(*u1, *u2),
        (Path::Wrap { up: u1, .. }, Path::Wrap { up: u2, .. }) => same_path(*u1, *u2),
        (Path::Hole { up: u1, .. }, Path::Hole { up: u2, .. }) => same_path(*u1, *u2),
        _ => false,
    }
}

impl<T: Clone> Clone for Path<T> {
    /// Copies the path; the copy agrees with it but for the annotations,
    /// which are copied with `T::clone`.
    fn clone(&self) -> (res: Self)
        ensures
            same_path(*self, res),
        decreases self,
    {
        match self {
            Path::Top => Path::Top,
            Path::Lambda { erased, name, up, annotation } => Path::Lambda {
                erased: *erased,
                name: clone_name(name),
                up: Box::new((**up).clone()),
                annotation: annotation.clone(),
            },
            Path::ApplicationFunction { erased, argument, up, annotation } => Path::ApplicationFunction {
                erased: *erased,
                argument: argument.clone(),
                up: Box::new((**up).clone()),
                annotation: annotation.clone(),
            },
            Path::ApplicationArgument { erased, function, up, annotation } => Path::ApplicationArgument {
                erased: *erased,
                function: function.clone(),
                up: Box::new((**up).clone()),
                annotation: annotation.clone(),
            },
            Path::Put { up, annotation } => Path::Put {
                up: Box::new((**up).clone()),
                annotation: annotation.clone(),
            },
            Path::Reference { name, up, annotation } => Path::Reference {
                name: name.clone(),
                up: Box::new((**up).clone()),
                annotation: annotation.clone(),
            },
            Path::DuplicationExpression { binder, body, up, annotation } => Path::DuplicationExpression {
                binder: clone_name(binder),
                body: body.clone(),
                up: Box::new((**up).clone()),
                annotation: annotation.clone(),
            },
            Path::DuplicationBody { binder, expression, up, annotation } => Path::DuplicationBody {
                binder: clone_name(binder),
                expression: expression.clone(),
                up: Box::new((**up).clone()),
                annotation: annotation.clone(),
            },
            Path::Universe { up, annotation } => Path::Universe {
                up: Box::new((**up).clone()),
                annotation: annotation.clone(),
            },
            Path::FunctionArgumentType { erased, name, self_name, return_type, up, annotation } =>
                Path::FunctionArgumentType {
                erased: *erased,
                name: clone_name(name),
                self_name: clone_name(self_name),
                return_type: return_type.clone(),
                up: Box::new((**up).clone()),
                annotation: annotation.clone(),
            },
            Path::FunctionReturnType { erased, name, self_name, argument_type, up, annotation } =>
                Path::FunctionReturnType {
                erased: *erased,
                name: clone_name(name),
                self_name: clone_name(self_name),
                argument_type: argument_type.clone(),
                up: Box::new((**up).clone()),
                annotation: annotation.clone(),
            },
            Path::Wrap { up, annotation } => Path::Wrap {
                up: Box::new((**up).clone()),
                annotation: annotation.clone(),
            },
            Path::Hole { up, annotation } => Path::Hole {
                up: Box::new((**up).clone()),
                annotation: annotation.clone(),
            },
        }
    }
}


impl<T> Term<T> {
    /// The same term with every annotation replaced by `()`. Literals are not
    /// handled and must not occur.
    pub fn clear_annotation(self) -> (res: Term<()>)
        requires
            no_literals(self@),
        ensures
            res@ == self@,
            no_literals(res@),
        decreases self,
    {
        match self {
            Term::Lambda { erased, name, body, .. } => Term::Lambda {
                erased,
                name,
                body: Box::new(body.clear_annotation()),
                annotation: (),
            },
            Term::Application { erased, function, argument, .. } => Term::Application {
                erased,
                function: Box::new(function.clear_annotation()),
                argument: Box::new(argument.clear_annotation()),
                annotation: (),
            },
            Term::Put(term, _) => Term::Put(Box::new(term.clear_annotation()), ()),
            Term::Duplication { binder, expression, body, .. } => Term::Duplication {
                binder,
                expression: Box::new(expression.clear_annotation()),
                body: Box::new(body.clear_annotation()),
                annotation: (),
            },
            Term::Reference(name, _) => Term::Reference(name, ()),
            Term::Universe(_) => Term::Universe(()),
            Term::Function { erased, name, self_name, argument_type, return_type, .. } =>
                Term::Function {
                erased,
                name,
                self_name,
                argument_type: Box::new(argument_type.clear_annotation()),
                return_type: Box::new(return_type.clear_annotation()),
                annotation: (),
            },
            Term::Wrap(term, _) => Term::Wrap(Box::new(term.clear_annotation()), ()),
            Term::Hole(_) => Term::Hole(()),
            Term::Compressed(_) => vstd::pervasive::unreached(),
        }
    }
}

/// The annotation of the root of a term; a literal has none.
pub open spec fn root_annotation<T>(t: Term<T>) -> Option<T> {
    match t {
        Term::Lambda { annotation, .. } => Some(annotation),
        Term::Application { annotation, .. } => Some(annotation),
        Term::Put(_, annotation) => Some(annotation),
        Term::Duplication { annotation, .. } => Some(annotation),
        Term::Reference(_, annotation) => Some(annotation),
        Term::Universe(annotation) => Some(annotation),
        Term::Function { annotation, .. } => Some(annotation),
        Term::Wrap(_, annotation) => Some(annotation),
        Term::Hole(annotation) => Some(annotation),
        Term::Compressed(_) => None,
    }
}

/// `r` is `t`, names included, with each annotation replaced by a value
/// that `f` can return for it.
pub open spec fn mapped_by<T, U, E, F: Fn(T) -> Result<U, E>>(f: F, t: Term<T>, r: Term<U>) -> bool
    decreases t,
{
    &&& r@ == t@
    &&& match (root_annotation(t), root_annotation(r)) {
        (Some(a), Some(b)) => call_ensures(f, (a,), Ok::<U, E>(b)),
        _ => true,
    }
    &&& match (t, r) {
        (Term::Lambda { name: n1, body: b1, .. }, Term::Lambda { name: n2, body: b2, .. }) => n1
            == n2 && mapped_by(f, *b1, *b2),
        (
            Term::Application { function: f1, argument: a1, .. },
            Term::Application { function: f2, argument: a2, .. },
        ) => mapped_by(f, *f1, *f2) && mapped_by(f, *a1, *a2),
        (Term::Put(e1, _), Term::Put(e2, _)) => mapped_by(f, *e1, *e2),
        (
            Term::Duplication { binder: n1, expression: e1, body: b1, .. },
            Term::Duplication { binder: n2, expression: e2, body: b2, .. },
        ) => n1 == n2 && mapped_by(f, *e1, *e2) && mapped_by(f, *b1, *b2),
        (
            Term::Function { name: n1, self_name: s1, argument_type: a1, return_type: r1, .. },
            Term::Function { name: n2, self_name: s2, argument_type: a2, return_type: r2, .. },
        ) => n1 == n2 && s1 == s2 && mapped_by(f, *a1, *a2) && mapped_by(f, *r1, *r2),
        (Term::Reference(n1, _), Term::Reference(n2, _)) => n1 == n2,
        (Term::Wrap(e1, _), Term::Wrap(e2, _)) => mapped_by(f, *e1, *e2),
        _ => true,
    }
}

impl<T> Term<T> {
    /// The same term with each annotation mapped by `f`, children before
    /// their parent; the first error of `f` is returned. Literals are not
    /// handled and must not occur.
    pub fn try_map_annotation<U, E, F: Fn(T) -> Result<U, E>>(self, f: &F) -> (res: Result<Term<U>, E>)
        requires
            no_literals(self@),
            forall|a: T| #[trigger] f.requires((a,)),
        ensures
            match res {
                Ok(r) => mapped_by(*f, self, r),
                Err(e) => exists|a: T| call_ensures(*f, (a,), Err::<U, E>(e)),
            },
            (forall|a: T, x: Result<U, E>| call_ensures(*f, (a,), x) ==> x is Ok) ==> res is Ok,
            (forall|a: T, x: Result<U, E>| call_ensures(*f, (a,), x) ==> x is Err) ==> res is Err,
        decreases self,
    {
        match self {
            Term::Lambda { erased, name, body, annotation } => {
                let body = body.try_map_annotation(f)?;
                let annotation = f(annotation)?;
                Ok(Term::Lambda { erased, name, body: Box::new(body), annotation })
            },
            Term::Application { erased, function, argument, annotation } => {
                let function = function.try_map_annotation(f)?;
                let argument = argument.try_map_annotation(f)?;
                let annotation = f(annotation)?;
                Ok(Term::Application {
                    erased,
                    function: Box::new(function),
                    argument: Box::new(argument),
                    annotation,
                })
            },
            Term::Put(term, annotation) => {
                let term = term.try_map_annotation(f)?;
                let annotation = f(annotation)?;
                Ok(Term::Put(Box::new(term), annotation))
            },
            Term::Duplication { binder, expression, body, annotation } => {
                let expression = expression.try_map_annotation(f)?;
                let body = body.try_map_annotation(f)?;
                let annotation = f(annotation)?;
                Ok(Term::Duplication {
                    binder,
                    expression: Box::new(expression),
                    body: Box::new(body),
                    annotation,
                })
            },
            Term::Reference(name, annotation) => {
                let annotation = f(annotation)?;
                Ok(Term::Reference(name, annotation))
            },
            Term::Universe(annotation) => {
                let annotation = f(annotation)?;
                Ok(Term::Universe(annotation))
            },
            Term::Function { erased, name, self_name, argument_type, return_type, annotation } => {
                let argument_type = argument_type.try_map_annotation(f)?;
                let return_type = return_type.try_map_annotation(f)?;
                let annotation = f(annotation)?;
                Ok(Term::Function {
                    erased,
                    name,
                    self_name,
                    argument_type: Box::new(argument_type),
                    return_type: Box::new(return_type),
                    annotation,
                })
            },
            Term::Wrap(term, annotation) => {
                let term = term.try_map_annotation(f)?;
                let annotation = f(annotation)?;
                Ok(Term::Wrap(Box::new(term), annotation))
            },
            Term::Hole(annotation) => {
                let annotation = f(annotation)?;
                Ok(Term::Hole(annotation))
            },
            Term::Compressed(_) => vstd::pervasive::unreached(),
        }
    }
}


impl<T> From<Cursor<T>> for Term<T> {
    /// The focused term, without the path above it.
    fn from(cursor: Cursor<T>) -> (res: Term<T>) {
        cursor.into_focus()
    }
}

impl<T> vstd::std_specs::convert::FromSpecImpl<Cursor<T>> for Term<T> {
    open spec fn obeys_from_spec() -> bool {
        true
    }

    open spec fn from_spec(cursor: Cursor<T>) -> Term<T> {
        cursor.focus()
    }
}


/// An editor term without annotations and literals, in the form in which it
/// is stored.
#[derive(Debug, PartialEq)]
pub enum TermData {
    Lambda { erased: bool, name: Option<String>, body: Box<TermData> },
    Application { erased: bool, function: Box<TermData>, argument: Box<TermData> },
    Put(Box<TermData>),
    Duplication { binder: Option<String>, expression: Box<TermData>, body: Box<TermData> },
    Reference(String),
    Universe,
    Function {
        erased: bool,
        name: Option<String>,
        self_name: Option<String>,
        argument_type: Box<TermData>,
        return_type: Box<TermData>,
    },
    Wrap(Box<TermData>),
    Hole,
}

/// The editor term of stored data.
pub open spec fn term_of_data(d: TermData) -> Term<()>
    decreases d,
{
    match d {
        TermData::Lambda { erased, name, body } => Term::Lambda {
            erased,
            name,
            body: Box::new(term_of_data(*body)),
            annotation: (),
        },
        TermData::Application { erased, function, argument } => Term::Application {
            erased,
            function: Box::new(term_of_data(*function)),
            argument: Box::new(term_of_data(*argument)),
            annotation: (),
        },
        TermData::Put(t) => Term::Put(Box::new(term_of_data(*t)), ()),
        TermData::Duplication { binder, expression, body } => Term::Duplication {
            binder,
            expression: Box::new(term_of_data(*expression)),
            body: Box::new(term_of_data(*body)),
            annotation: (),
        },
        TermData::Reference(name) => Term::Reference(name, ()),
        TermData::Universe => Term::Universe(()),
        TermData::Function { erased, name, self_name, argument_type, return_type } => Term::Function {
            erased,
            name,
            self_name,
            argument_type: Box::new(term_of_data(*argument_type)),
            return_type: Box::new(term_of_data(*return_type)),
            annotation: (),
        },
        TermData::Wrap(t) => Term::Wrap(Box::new(term_of_data(*t)), ()),
        TermData::Hole => Term::Hole(()),
    }
}

impl From<TermData> for Term<()> {
    fn from(d: TermData) -> (res: Term<()>)
        decreases d,
    {
        match d {
            TermData::Lambda { erased, name, body } => Term::Lambda {
                erased,
                name,
                body: Box::new(Term::from(*body)),
                annotation: (),
            },
            TermData::Application { erased, function, argument } => Term::Application {
                erased,
                function: Box::new(Term::from(*function)),
                argument: Box::new(Term::from(*argument)),
                annotation: (),
            },
            TermData::Put(t) => Term::Put(Box::new(Term::from(*t)), ()),
            TermData::Duplication { binder, expression, body } => Term::Duplication {
                binder,
                expression: Box::new(Term::from(*expression)),
                body: Box::new(Term::from(*body)),
                annotation: (),
            },
            TermData::Reference(name) => Term::Reference(name, ()),
            TermData::Universe => Term::Universe(()),
            TermData::Function { erased, name, self_name, argument_type, return_type } =>
                Term::Function {
                erased,
                name,
                self_name,
                argument_type: Box::new(Term::from(*argument_type)),
                return_type: Box::new(Term::from(*return_type)),
                annotation: (),
            },
            TermData::Wrap(t) => Term::Wrap(Box::new(Term::from(*t)), ()),
            TermData::Hole => Term::Hole(()),
        }
    }
}

impl vstd::std_specs::convert::FromSpecImpl<TermData> for Term<()> {
    open spec fn obeys_from_spec() -> bool {
        true
    }

    open spec fn from_spec(d: TermData) -> Term<()> {
        term_of_data(d)
    }
}

impl TermData {
    /// The stored form of a term; literals are not handled and must not
    /// occur.
    pub fn from_term(term: Term<()>) -> (res: TermData)
        requires
            no_literals(term@),
        ensures
            term_of_data(res) == term,
        decreases term,
    {
        match term {
            Term::Lambda { erased, name, body, annotation } => {
                proof {
                    lemma_unit(annotation);
                }
                TermData::Lambda { erased, name, body: Box::new(TermData::from_term(*body)) }
            },
            Term::Application { erased, function, argument, annotation } => {
                proof {
                    lemma_unit(annotation);
                }
                TermData::Application {
                    erased,
                    function: Box::new(TermData::from_term(*function)),
                    argument: Box::new(TermData::from_term(*argument)),
                }
            },
            Term::Put(t, annotation) => {
                proof {
                    lemma_unit(annotation);
                }
                TermData::Put(Box::new(TermData::from_term(*t)))
            },
            Term::Duplication { binder, expression, body, annotation } => {
                proof {
                    lemma_unit(annotation);
                }
                TermData::Duplication {
                    binder,
                    expression: Box::new(TermData::from_term(*expression)),
                    body: Box::new(TermData::from_term(*body)),
                }
            },
            Term::Reference(name, annotation) => {
                proof {
                    lemma_unit(annotation);
                }
                TermData::Reference(name)
            },
            Term::Universe(annotation) => {
                proof {
                    lemma_unit(annotation);
                }
                TermData::Universe
            },
            Term::Function { erased, name, self_name, argument_type, return_type, annotation } => {
                proof {
                    lemma_unit(annotation);
                }
                TermData::Function {
                    erased,
                    name,
                    self_name,
                    argument_type: Box::new(TermData::from_term(*argument_type)),
                    return_type: Box::new(TermData::from_term(*return_type)),
                }
            },
            Term::Wrap(t, annotation) => {
                proof {
                    lemma_unit(annotation);
                }
                TermData::Wrap(Box::new(TermData::from_term(*t)))
            },
            Term::Hole(annotation) => {
                proof {
                    lemma_unit(annotation);
                }
                TermData::Hole
            },
            Term::Compressed(_) => vstd::pervasive::unreached(),
        }
    }
}


proof fn lemma_unit(a: ())
    ensures
        a == (),
{
}


/// The text of an optional name: the name, or nothing.
pub open spec fn name_text(n: Option<Seq<char>>) -> Seq<char> {
    match n {
        Some(s) => s,
        None => Seq::empty(),
    }
}

/// The text of a term: `\x body` for a lambda (`/` when erased), `(f a)` for
/// an application (`[f a]` when erased), `. t` for a put, `: b = e body` for
/// a duplication, `*` for the universe, `!t` for a wrap, `+self,x:A B` for a
/// function type (`_` when erased), `?` for a hole, the name for a
/// reference, and `COMPRESSED` for a literal.
pub open spec fn render_tm(t: Tm) -> Seq<char>
    decreases t,
{
    match t {
        Tm::Lam { erased, name, body } => (if erased {
            seq!['/']
        } else {
            seq!['\\']
        }) + name_text(name) + seq![' '] + render_tm(*body),
        Tm::App { erased, function, argument } => (if erased {
            seq!['[']
        } else {
            seq!['(']
        }) + render_tm(*function) + seq![' '] + render_tm(*argument) + (if erased {
            seq![']']
        } else {
            seq![')']
        }),
        Tm::Put(e) => seq!['.', ' '] + render_tm(*e),
        Tm::Ref(name) => name,
        Tm::Dup { binder, expression, body } => seq![':', ' '] + name_text(binder) + seq![
            ' ',
            '=',
            ' ',
        ] + render_tm(*expression) + seq![' '] + render_tm(*body),
        Tm::Univ => seq!['*'],
        Tm::Wrap(e) => seq!['!'] + render_tm(*e),
        Tm::Fun { erased, name, self_name, argument_type, return_type } => (if erased {
            seq!['_']
        } else {
            seq!['+']
        }) + name_text(self_name) + seq![','] + name_text(name) + seq![':'] + render_tm(
            *argument_type,
        ) + seq![' '] + render_tm(*return_type),
        Tm::Hole => seq!['?'],
        Tm::Lit(_) => seq!['C', 'O', 'M', 'P', 'R', 'E', 'S', 'S', 'E', 'D'],
        _ => Seq::empty(),
    }
}

fn push_text(out: &mut String, text: &str)
    ensures
        final(out)@ == old(out)@ + text@,
{
    out.append(text);
}

fn push_name(out: &mut String, name: &Option<String>)
    ensures
        final(out)@ == old(out)@ + name_text(name_view(*name)),
{
    match name {
        Some(n) => push_text(out, n.as_str()),
        None => {
            assert(old(out)@ + Seq::<char>::empty() =~= old(out)@);
        },
    }
}

impl<T> Term<T> {
    /// Writes the text of the term after `out`.
    fn render_into(&self, out: &mut String)
        ensures
            final(out)@ == old(out)@ + render_tm(self@),
        decreases self,
    {
        let ghost start = out@;
        match self {
            Term::Lambda { erased, name, body, .. } => {
                push_char(out, if *erased { '/' } else { '\\' });
                push_name(out, name);
                push_char(out, ' ');
                body.render_into(out);
            },
            Term::Application { erased, function, argument, .. } => {
                push_char(out, if *erased { '[' } else { '(' });
                function.render_into(out);
                push_char(out, ' ');
                argument.render_into(out);
                push_char(out, if *erased { ']' } else { ')' });
            },
            Term::Put(term, _) => {
                push_char(out, '.');
                push_char(out, ' ');
                term.render_into(out);
            },
            Term::Reference(name, _) => push_text(out, name.as_str()),
            Term::Duplication { binder, expression, body, .. } => {
                push_char(out, ':');
                push_char(out, ' ');
                push_name(out, binder);
                push_char(out, ' ');
                push_char(out, '=');
                push_char(out, ' ');
                expression.render_into(out);
                push_char(out, ' ');
                body.render_into(out);
            },
            Term::Universe(_) => push_char(out, '*'),
            Term::Function { erased, name, self_name, argument_type, return_type, .. } => {
                push_char(out, if *erased { '_' } else { '+' });
                push_name(out, self_name);
                push_char(out, ',');
                push_name(out, name);
                push_char(out, ':');
                argument_type.render_into(out);
                push_char(out, ' ');
                return_type.render_into(out);
            },
            Term::Wrap(term, _) => {
                push_char(out, '!');
                term.render_into(out);
            },
            Term::Hole(_) => push_char(out, '?'),
            Term::Compressed(_) => {
                push_char(out, 'C');
                push_char(out, 'O');
                push_char(out, 'M');
                push_char(out, 'P');
                push_char(out, 'R');
                push_char(out, 'E');
                push_char(out, 'S');
                push_char(out, 'S');
                push_char(out, 'E');
                push_char(out, 'D');
            },
        }
        assert(out@ =~= start + render_tm(self@));
    }

    /// The text of the term.
    pub fn render(&self) -> (res: String)
        ensures
            res@ == render_tm(self@),
    {
        let mut out = String::new();
        self.render_into(&mut out);
        assert(out@ =~= render_tm(self@));
        out
    }
}

/// Mapping every annotation by a function that gives each back unchanged
/// gives back the term.
pub proof fn lemma_map_identity<T, E, F: Fn(T) -> Result<T, E>>(f: F, t: Term<T>, r: Term<T>)
    requires
        mapped_by(f, t, r),
        no_literals(t@),
        forall|a: T, x: Result<T, E>| call_ensures(f, (a,), x) ==> x == Ok::<T, E>(a),
    ensures
        r == t,
    decreases t,
{
    match (t, r) {
        (Term::Lambda { body: b1, .. }, Term::Lambda { body: b2, .. }) => lemma_map_identity(f, *b1, *b2),
        (
            Term::Application { function: f1, argument: a1, .. },
            Term::Application { function: f2, argument: a2, .. },
        ) => {
            lemma_map_identity(f, *f1, *f2);
            lemma_map_identity(f, *a1, *a2);
        },
        (Term::Put(e1, _), Term::Put(e2, _)) => lemma_map_identity(f, *e1, *e2),
        (
            Term::Duplication { expression: e1, body: b1, .. },
            Term::Duplication { expression: e2, body: b2, .. },
        ) => {
            lemma_map_identity(f, *e1, *e2);
            lemma_map_identity(f, *b1, *b2);
        },
        (
            Term::Function { argument_type: a1, return_type: r1, .. },
            Term::Function { argument_type: a2, return_type: r2, .. },
        ) => {
            lemma_map_identity(f, *a1, *a2);
            lemma_map_identity(f, *r1, *r2);
        },
        (Term::Wrap(e1, _), Term::Wrap(e2, _)) => lemma_map_identity(f, *e1, *e2),
        _ => {},
    }
}

/// The term has no variable index and no type annotation: the shape of an
/// editor term, literals included.
pub open spec fn editor_shaped(t: Tm) -> bool
    decreases t,
{
    match t {
        Tm::Lam { body, .. } => editor_shaped(*body),
        Tm::App { function, argument, .. } => editor_shaped(*function) && editor_shaped(*argument),
        Tm::Put(e) => editor_shaped(*e),
        Tm::Dup { expression, body, .. } => editor_shaped(*expression) && editor_shaped(*body),
        Tm::Fun { argument_type, return_type, .. } => editor_shaped(*argument_type)
            && editor_shaped(*return_type),
        Tm::Wrap(e) => editor_shaped(*e),
        Tm::Var(_) | Tm::Ann { .. } => false,
        _ => true,
    }
}

/// An editor-shaped term with no literal left.
pub open spec fn plain_shaped(t: Tm) -> bool {
    editor_shaped(t) && no_literals(t)
}

/// Every editor term has the shape of one.
pub proof fn lemma_ztm_shaped<T>(t: Term<T>)
    ensures
        editor_shaped(t@),
    decreases t,
{
    match t {
        Term::Lambda { body, .. } => lemma_ztm_shaped(*body),
        Term::Application { function, argument, .. } => {
            lemma_ztm_shaped(*function);
            lemma_ztm_shaped(*argument);
        },
        Term::Put(e, _) => lemma_ztm_shaped(*e),
        Term::Duplication { expression, body, .. } => {
            lemma_ztm_shaped(*expression);
            lemma_ztm_shaped(*body);
        },
        Term::Function { argument_type, return_type, .. } => {
            lemma_ztm_shaped(*argument_type);
            lemma_ztm_shaped(*return_type);
        },
        Term::Wrap(e, _) => lemma_ztm_shaped(*e),
        _ => {},
    }
}

proof fn lemma_size_tm_shaped(n: nat)
    ensures
        plain_shaped(size_tm(n)),
    decreases n,
{
    reveal_with_fuel(editor_shaped, 6);
    reveal_with_fuel(no_literals, 4);
    if n > 0 {
        lemma_size_tm_shaped((n - 1) as nat);
    }
}

proof fn lemma_word_step_shaped(bits: Seq<bool>)
    ensures
        editor_shaped(word_step(bits)),
    decreases bits.len(),
{
    reveal_with_fuel(editor_shaped, 6);
    reveal_with_fuel(no_literals, 4);
    if bits.len() > 0 {
        lemma_word_step_shaped(bits.take(bits.len() - 1));
    }
}

proof fn lemma_vector_step_shaped(ty: Tm, elems: Seq<Tm>)
    requires
        editor_shaped(ty),
        forall|i: int| 0 <= i < elems.len() ==> editor_shaped(#[trigger] elems[i]),
    ensures
        editor_shaped(vector_step(ty, elems)),
    decreases elems.len(),
{
    reveal_with_fuel(editor_shaped, 6);
    reveal_with_fuel(no_literals, 4);
    if elems.len() > 0 {
        assert forall|i: int| 0 <= i < elems.drop_first().len() implies editor_shaped(
            #[trigger] elems.drop_first()[i],
        ) by {
            assert(elems.drop_first()[i] == elems[i + 1]);
        }
        lemma_vector_step_shaped(ty, elems.drop_first());
        assert(editor_shaped(elems[0]));
    }
}

/// One step of expansion of a literal keeps the shape of an editor term.
proof fn lemma_lit_step_shaped(l: Lit)
    ensures
        editor_shaped(lit_step(l)),
{
    reveal_with_fuel(editor_shaped, 6);
    reveal_with_fuel(no_literals, 4);
    match l {
        Lit::Word(bits) => lemma_word_step_shaped(bits),
        Lit::Size(n) => lemma_size_tm_shaped(n),
        Lit::Char(c) => {},
        Lit::Str(s) => {
            let elems = char_lits(s);
            assert forall|i: int| 0 <= i < elems.len() implies editor_shaped(#[trigger] elems[i]) by {
                assert(elems[i] == char_lit(s[i]));
            }
            lemma_vector_step_shaped(Tm::Ref("Char"@), elems);
        },
    }
}

/// Unfolding an editor-shaped term leaves an editor-shaped term with no
/// literal.
pub proof fn lemma_unfold_plain(t: Tm)
    requires
        editor_shaped(t),
    ensures
        plain_shaped(unfold(t)),
    decreases rank_bound(t), t,
{
    match t {
        Tm::Lam { body, .. } => lemma_unfold_plain(*body),
        Tm::App { function, argument, .. } => {
            lemma_unfold_plain(*function);
            lemma_unfold_plain(*argument);
        },
        Tm::Put(e) => lemma_unfold_plain(*e),
        Tm::Dup { expression, body, .. } => {
            lemma_unfold_plain(*expression);
            lemma_unfold_plain(*body);
        },
        Tm::Fun { argument_type, return_type, .. } => {
            lemma_unfold_plain(*argument_type);
            lemma_unfold_plain(*return_type);
        },
        Tm::Wrap(e) => lemma_unfold_plain(*e),
        Tm::Lit(l) => {
            lemma_lit_step_rank(l);
            lemma_lit_step_shaped(l);
            lemma_unfold_plain(lit_step(l));
        },
        _ => {},
    }
}

} // verus!
