use vstd::prelude::*;

use crate::term::{anns_all, clone_keeps, AnalysisTerm, Tm};

verus! {

/// A value that stands for "no information", used as the annotation of
/// generated terms.
pub trait Zero: Sized {
    fn zero() -> Self;
}

impl Zero for () {
    fn zero() -> Self {
        ()
    }
}

impl<T> Zero for Option<T> {
    fn zero() -> (res: Self)
        ensures
            res is None,
    {
        None
    }
}

/// `z` is what `T::zero` returns.
pub open spec fn zero_is<T: Zero>(z: T) -> bool {
    forall|x: T| #[trigger] call_ensures(T::zero, (), x) ==> x == z
}

/// The annotation `z` is what generated nodes carry and what cloning keeps.
pub open spec fn blank<T: Zero + Clone>(z: T) -> bool {
    zero_is(z) && clone_keeps(z)
}

/// `None` is the zero of optional annotations.
pub proof fn lemma_none_zero_is<U>()
    ensures
        zero_is::<Option<U>>(None),
{
    assert forall|x: Option<U>| #[trigger] call_ensures(<Option<U> as Zero>::zero, (), x) implies x
        == None::<U> by {}
}

/// The mathematical value of a compressed literal.
pub enum Lit {
    Word(Seq<bool>),
    Size(nat),
    Char(char),
    Str(Seq<char>),
}

/// A word literal: a sequence of bits.
#[derive(Debug, PartialEq)]
pub struct CompressedWord {
    data: Vec<bool>,
}

/// A size (natural number) literal.
#[derive(Debug, PartialEq)]
pub struct CompressedSize {
    size: usize,
}

/// A character literal.
#[derive(Debug, PartialEq)]
pub struct CompressedChar {
    char: char,
}

/// A string literal.
#[derive(Debug, PartialEq)]
pub struct CompressedString {
    data: String,
}

impl View for CompressedWord {
    type V = Seq<bool>;

    closed spec fn view(&self) -> Seq<bool> {
        self.data@
    }
}

impl View for CompressedSize {
    type V = nat;

    closed spec fn view(&self) -> nat {
        self.size as nat
    }
}

impl View for CompressedChar {
    type V = char;

    closed spec fn view(&self) -> char {
        self.char
    }
}

impl View for CompressedString {
    type V = Seq<char>;

    closed spec fn view(&self) -> Seq<char> {
        self.data@
    }
}

impl CompressedWord {
    pub fn new(data: Vec<bool>) -> (res: Self)
        ensures
            res@ == data@,
    {
        CompressedWord { data }
    }

    pub fn bits(&self) -> (res: &Vec<bool>)
        ensures
            res@ == self@,
    {
        &self.data
    }
}

impl CompressedSize {
    pub fn new(size: usize) -> (res: CompressedSize)
        ensures
            res@ == size as nat,
    {
        CompressedSize { size }
    }

    pub fn size(&self) -> (res: usize)
        ensures
            res as nat == self@,
    {
        self.size
    }
}

impl CompressedChar {
    pub fn new(char: char) -> (res: CompressedChar)
        ensures
            res@ == char,
    {
        CompressedChar { char }
    }

    pub fn char(&self) -> (res: char)
        ensures
            res == self@,
    {
        self.char
    }
}

impl CompressedString {
    pub fn new(data: String) -> (res: CompressedString)
        ensures
            res@ == data@,
    {
        CompressedString { data }
    }

    pub fn data(&self) -> (res: &String)
        ensures
            res@ == self@,
    {
        &self.data
    }
}

/// A literal that stands for a larger term until it is expanded.
#[derive(Debug, PartialEq)]
pub enum CompressedTerm {
    Word(CompressedWord),
    Size(CompressedSize),
    Char(CompressedChar),
    String(CompressedString),
}

impl View for CompressedTerm {
    type V = Lit;

    open spec fn view(&self) -> Lit {
        match self {
            CompressedTerm::Word(w) => Lit::Word(w@),
            CompressedTerm::Size(s) => Lit::Size(s@),
            CompressedTerm::Char(c) => Lit::Char(c@),
            CompressedTerm::String(s) => Lit::Str(s@),
        }
    }
}

impl CompressedTerm {
    pub fn duplicate(&self) -> (res: CompressedTerm)
        ensures
            res@ == self@,
    {
        match self {
            CompressedTerm::Word(w) => CompressedTerm::Word(CompressedWord::new(w.bits().clone())),
            CompressedTerm::Size(s) => CompressedTerm::Size(CompressedSize::new(s.size())),
            CompressedTerm::Char(c) => CompressedTerm::Char(CompressedChar::new(c.char())),
            CompressedTerm::String(s) => CompressedTerm::String(
                CompressedString::new(s.data().clone()),
            ),
        }
    }
}

pub open spec fn app(erased: bool, function: Tm, argument: Tm) -> Tm {
    Tm::App { erased, function: Box::new(function), argument: Box::new(argument) }
}

/// `Size::succ` applied `n` times to `Size::zero`.
pub open spec fn size_tm(n: nat) -> Tm
    decreases n,
{
    if n == 0 {
        Tm::Ref("Size::zero"@)
    } else {
        app(false, Tm::Ref("Size::succ"@), size_tm((n - 1) as nat))
    }
}

pub open spec fn bit_name(bit: bool) -> Seq<char> {
    if bit {
        "Word::high"@
    } else {
        "Word::low"@
    }
}

/// The word term of `bits`: the last bit is the outermost constructor, and the
/// constructor for bit `i` takes the size `i` as its erased argument.
pub open spec fn word_tm(bits: Seq<bool>) -> Tm
    decreases bits.len(),
{
    if bits.len() == 0 {
        Tm::Ref("Word::empty"@)
    } else {
        let k = (bits.len() - 1) as nat;
        app(
            false,
            app(true, Tm::Ref(bit_name(bits[k as int])), size_tm(k)),
            word_tm(bits.take(k as int)),
        )
    }
}

/// Bit `k` of the encoding of a character: the four bytes of its code point in
/// big-endian order, each byte from its least significant bit up.
pub open spec fn char_bit(c: char, k: int) -> bool {
    ((c as u32) >> ((24 - 8 * (k / 8) + k % 8) as u32)) & 1u32 == 1u32
}

pub open spec fn char_bits(c: char) -> Seq<bool> {
    Seq::new(32, |k: int| char_bit(c, k))
}

pub open spec fn char_tm(c: char) -> Tm {
    app(false, Tm::Ref("Char::new"@), word_tm(char_bits(c)))
}

/// A vector of `elems` with element type `ty`; the element at position `i`
/// of `n` is consed with the size `n - 1 - i`.
pub open spec fn vector_tm(ty: Tm, elems: Seq<Tm>) -> Tm
    decreases elems.len(),
{
    if elems.len() == 0 {
        app(true, Tm::Ref("Vector::nil"@), ty)
    } else {
        app(
            false,
            app(
                false,
                app(true, app(true, Tm::Ref("Vector::cons"@), ty), size_tm((elems.len() - 1) as nat)),
                elems[0],
            ),
            vector_tm(ty, elems.drop_first()),
        )
    }
}

/// The length in bytes of the UTF-8 encoding of `s`, as `str::len` reports it.
pub open spec fn byte_len(s: Seq<char>) -> nat {
    (vstd::utf8::encode_utf8(s).len() as usize) as nat
}

pub open spec fn string_tm(s: Seq<char>) -> Tm {
    app(
        false,
        app(true, Tm::Ref("String::new"@), size_tm(byte_len(s))),
        vector_tm(Tm::Ref("Char"@), s.map(|i: int, c: char| char_tm(c))),
    )
}

/// The term that a literal stands for, with every nested literal expanded too.
pub open spec fn lit_tm(l: Lit) -> Tm {
    match l {
        Lit::Word(bits) => word_tm(bits),
        Lit::Size(n) => size_tm(n),
        Lit::Char(c) => char_tm(c),
        Lit::Str(s) => string_tm(s),
    }
}

pub fn reference<T: Zero>(name: &str) -> (res: AnalysisTerm<T>)
    ensures
        res@ == Tm::Ref(name@),
        forall|z: T| zero_is(z) ==> #[trigger] anns_all(res, z),
{
    AnalysisTerm::Reference(name.to_owned(), T::zero())
}

pub fn application<T: Zero>(erased: bool, function: AnalysisTerm<T>, argument: AnalysisTerm<T>) -> (res: AnalysisTerm<T>)
    ensures
        res@ == app(erased, function@, argument@),
        forall|z: T| zero_is(z) && anns_all(function, z) && anns_all(argument, z) ==> #[trigger] anns_all(res, z),
{
    AnalysisTerm::Application {
        erased,
        function: Box::new(function),
        argument: Box::new(argument),
        annotation: T::zero(),
    }
}

/// The expanded size term of `n`.
pub fn size_term<T: Zero>(n: usize) -> (res: AnalysisTerm<T>)
    ensures
        res@ == size_tm(n as nat),
        forall|z: T| zero_is(z) ==> #[trigger] anns_all(res, z),
{
    let mut term = reference("Size::zero");
    let mut i: usize = 0;
    while i < n
        invariant
            i <= n,
            term@ == size_tm(i as nat),
            forall|z: T| zero_is(z) ==> #[trigger] anns_all(term, z),
        decreases n - i,
    {
        term = application(false, reference("Size::succ"), term);
        i = i + 1;
    }
    term
}

/// The expanded word term of `bits`.
pub fn word_term<T: Zero>(bits: &Vec<bool>) -> (res: AnalysisTerm<T>)
    ensures
        res@ == word_tm(bits@),
        forall|z: T| zero_is(z) ==> #[trigger] anns_all(res, z),
{
    let mut term = reference("Word::empty");
    let mut idx: usize = 0;
    while idx < bits.len()
        invariant
            idx <= bits.len(),
            term@ == word_tm(bits@.take(idx as int)),
            forall|z: T| zero_is(z) ==> #[trigger] anns_all(term, z),
        decreases bits.len() - idx,
    {
        let call = if bits[idx] {
            reference("Word::high")
        } else {
            reference("Word::low")
        };
        let call = application(true, call, size_term(idx));
        term = application(false, call, term);
        proof {
            let next = bits@.take(idx + 1);
            assert(next.take(idx as int) =~= bits@.take(idx as int));
            assert(next[idx as int] == bits@[idx as int]);
        }
        idx = idx + 1;
    }
    assert(bits@.take(bits.len() as int) =~= bits@);
    term
}

/// The bits of a character's code point: big-endian bytes, each from its least
/// significant bit up.
pub fn char_bit_vec(c: char) -> (res: Vec<bool>)
    ensures
        res@ == char_bits(c),
{
    let v = c as u32;
    let mut bits: Vec<bool> = Vec::new();
    let mut j: u32 = 0;
    while j < 4
        invariant
            j <= 4,
            v == c as u32,
            bits@.len() == 8 * j,
            forall|k: int| 0 <= k < bits@.len() ==> bits@[k] == char_bit(c, k),
        decreases 4 - j,
    {
        let sh: u32 = 24 - 8 * j;
        let byte: u32 = (v >> sh) & 0xff;
        let mut bit: u32 = 0;
        while bit < 8
            invariant
                j < 4,
                bit <= 8,
                v == c as u32,
                sh == 24 - 8 * j,
                byte == (v >> sh) & 0xff,
                bits@.len() == 8 * j + bit,
                forall|k: int| 0 <= k < bits@.len() ==> bits@[k] == char_bit(c, k),
            decreases 8 - bit,
        {
            let set = ((1u32 << bit) & byte) != 0;
            proof {
                let k = 8 * j + bit;
                assert(k / 8 == j as int && k % 8 == bit as int) by (nonlinear_arith)
                    requires k == 8 * j + bit, bit < 8;
                let total: u32 = (sh + bit) as u32;
                assert((((1u32 << bit) & byte) != 0) == ((v >> total) & 1u32 == 1u32)) by (bit_vector)
                    requires byte == (v >> sh) & 0xff, sh <= 24, bit < 8, total == sh + bit;
                assert(((24 - 8 * (k / 8) + k % 8) as u32) == total);
            }
            bits.push(set);
            bit = bit + 1;
        }
        j = j + 1;
    }
    assert(bits@ =~= char_bits(c));
    bits
}

/// The expanded term of a character.
pub fn char_term<T: Zero>(c: char) -> (res: AnalysisTerm<T>)
    ensures
        res@ == char_tm(c),
        forall|z: T| zero_is(z) ==> #[trigger] anns_all(res, z),
{
    let bits = char_bit_vec(c);
    application(false, reference("Char::new"), word_term(&bits))
}

/// The expanded vector term of `data` with element type `ty`.
pub fn vector_term<T: Zero + Clone>(ty: AnalysisTerm<T>, data: Vec<AnalysisTerm<T>>) -> (res: AnalysisTerm<T>)
    ensures
        res@ == vector_tm(ty@, data@.map_values(|e: AnalysisTerm<T>| e@)),
        forall|z: T| blank(z) && anns_all(ty, z) && (forall|k: int| 0 <= k < data@.len() ==> anns_all(#[trigger] data@[k], z)) ==> #[trigger] anns_all(res, z),
{
    let ghost elems = data@.map_values(|e: AnalysisTerm<T>| e@);
    let ghost data0 = data@;
    let mut term = application(true, reference("Vector::nil"), ty.clone());
    let mut data = data;
    let mut idx: usize = 0;
    let n = data.len();
    while data.len() > 0
        invariant
            idx + data@.len() == n,
            n == elems.len(),
            forall|k: int| 0 <= k < data@.len() ==> #[trigger] data@[k]@ == elems[k],
            term@ == vector_tm(ty@, elems.skip(data@.len() as int)),
            forall|z: T| blank(z) && anns_all(ty, z) && (forall|k: int| 0 <= k < n ==> anns_all(#[trigger] data0[k], z)) ==> #[trigger] anns_all(term, z),
            forall|k: int| 0 <= k < data@.len() ==> #[trigger] data@[k] == data0[k],
        decreases data@.len(),
    {
        let element = data.pop().unwrap();
        let cons = application(true, reference("Vector::cons"), ty.clone());
        let call = application(true, cons, size_term(idx));
        let call = application(false, call, element);
        term = application(false, call, term);
        proof {
            let s = elems.skip(data@.len() as int);
            assert(s.drop_first() =~= elems.skip(data@.len() as int + 1));
            assert(s[0] == elems[data@.len() as int]);
        }
        idx = idx + 1;
    }
    assert(elems.skip(0) =~= elems);
    term
}

/// The expanded term of a string.
pub fn string_term<T: Zero + Clone>(s: &String) -> (res: AnalysisTerm<T>)
    ensures
        res@ == string_tm(s@),
        forall|z: T| blank(z) ==> #[trigger] anns_all(res, z),
{
    let text = s.as_str();
    let n = text.unicode_len();
    let mut chars: Vec<AnalysisTerm<T>> = Vec::new();
    let mut i: usize = 0;
    while i < n
        invariant
            i <= n,
            n == s@.len(),
            text@ == s@,
            chars@.len() == i,
            forall|k: int| 0 <= k < i ==> #[trigger] chars@[k]@ == char_tm(s@[k]),
            forall|z: T, k: int| zero_is(z) && 0 <= k < i ==> #[trigger] anns_all(chars@[k], z),
        decreases n - i,
    {
        chars.push(char_term(text.get_char(i)));
        i = i + 1;
    }
    let ghost elems = chars@.map_values(|e: AnalysisTerm<T>| e@);
    assert(elems =~= s@.map(|i: int, c: char| char_tm(c)));
    let vector = vector_term(reference("Char"), chars);
    let size = size_term(text.len());
    application(false, application(true, reference("String::new"), size), vector)
}

impl CompressedTerm {
    /// The term that the literal stands for, fully expanded.
    pub fn expand_full<T: Zero + Clone>(&self) -> (res: AnalysisTerm<T>)
        ensures
            res@ == lit_tm(self@),
            forall|z: T| blank(z) ==> #[trigger] anns_all(res, z),
    {
        match self {
            CompressedTerm::Word(w) => word_term(w.bits()),
            CompressedTerm::Size(s) => size_term(s.size()),
            CompressedTerm::Char(c) => char_term(c.char()),
            CompressedTerm::String(s) => string_term(s.data()),
        }
    }
}

} // verus!
