//! Conversions between the Welkin data types and Rust values.
use vstd::prelude::*;

use crate::literal::{byte_len, char_bit, char_bit_vec, char_bits};
use crate::term::{AnalysisTerm, Tm};
use crate::zipper::{
    lemma_lit_step_rank, lemma_unfold_plain, lemma_ztm_shaped, plain_shaped, rank_bound,
    unfold, Term,
};

pub mod w;

verus! {

impl From<w::Bool> for bool {
    fn from(b: w::Bool) -> (res: bool) {
        match b {
            w::Bool::True => true,
            w::Bool::False => false,
        }
    }
}

impl vstd::std_specs::convert::FromSpecImpl<w::Bool> for bool {
    open spec fn obeys_from_spec() -> bool {
        true
    }

    open spec fn from_spec(b: w::Bool) -> bool {
        b is True
    }
}

impl From<bool> for w::Bool {
    fn from(b: bool) -> (res: w::Bool) {
        if b {
            w::Bool::True
        } else {
            w::Bool::False
        }
    }
}

impl vstd::std_specs::convert::FromSpecImpl<bool> for w::Bool {
    open spec fn obeys_from_spec() -> bool {
        true
    }

    open spec fn from_spec(b: bool) -> w::Bool {
        if b {
            w::Bool::True
        } else {
            w::Bool::False
        }
    }
}

/// The elements of a vector, head first.
pub open spec fn vector_elems<A>(v: w::Vector<A>) -> Seq<A>
    decreases v,
{
    match v {
        w::Vector::nil => Seq::empty(),
        w::Vector::cons { head, tail } => seq![head] + vector_elems(*tail),
    }
}

/// The vector of `s`, its first element at the head.
pub open spec fn vector_of<A>(s: Seq<A>) -> w::Vector<A>
    decreases s.len(),
{
    if s.len() == 0 {
        w::Vector::nil
    } else {
        w::Vector::cons { head: s[0], tail: Box::new(vector_of(s.drop_first())) }
    }
}

/// The bits of a word, outermost first.
pub open spec fn word_bits(w: w::Word) -> Seq<bool>
    decreases w,
{
    match w {
        w::Word::empty => Seq::empty(),
        w::Word::low { after } => seq![false] + word_bits(*after),
        w::Word::high { after } => seq![true] + word_bits(*after),
    }
}

/// The word built from `s` in order: the last bit ends up outermost.
pub open spec fn word_of(s: Seq<bool>) -> w::Word
    decreases s.len(),
{
    if s.len() == 0 {
        w::Word::empty
    } else if s.last() {
        w::Word::high { after: Box::new(word_of(s.drop_last())) }
    } else {
        w::Word::low { after: Box::new(word_of(s.drop_last())) }
    }
}

/// A vector read back gives the sequence it was built from.
pub proof fn lemma_vector_round_trip<A>(s: Seq<A>)
    ensures
        vector_elems(vector_of(s)) == s,
    decreases s.len(),
{
    if s.len() > 0 {
        lemma_vector_round_trip(s.drop_first());
        assert(seq![s[0]] + s.drop_first() =~= s);
    }
}

/// A vector rebuilt from its elements is the same vector.
pub proof fn lemma_vector_rebuilt<A>(v: w::Vector<A>)
    ensures
        vector_of(vector_elems(v)) == v,
    decreases v,
{
    match v {
        w::Vector::nil => {},
        w::Vector::cons { head, tail } => {
            lemma_vector_rebuilt(*tail);
            assert((seq![head] + vector_elems(*tail)).drop_first() =~= vector_elems(*tail));
        },
    }
}

/// A word built from a sequence of bits reads back in reverse order.
pub proof fn lemma_word_reverses(s: Seq<bool>)
    ensures
        word_bits(word_of(s)) == s.reverse(),
    decreases s.len(),
{
    if s.len() > 0 {
        lemma_word_reverses(s.drop_last());
        assert(seq![s.last()] + s.drop_last().reverse() =~= s.reverse());
    }
}

/// A word rebuilt from its bits, read in reverse, is the same word.
pub proof fn lemma_word_rebuilt(w: w::Word)
    ensures
        word_of(word_bits(w).reverse()) == w,
    decreases w,
{
    match w {
        w::Word::empty => {
            assert(word_bits(w).reverse() =~= Seq::<bool>::empty());
        },
        w::Word::low { after } => {
            lemma_word_rebuilt(*after);
            let r = word_bits(w).reverse();
            assert(r.drop_last() =~= word_bits(*after).reverse());
            assert(r.last() == false);
        },
        w::Word::high { after } => {
            lemma_word_rebuilt(*after);
            let r = word_bits(w).reverse();
            assert(r.drop_last() =~= word_bits(*after).reverse());
            assert(r.last() == true);
        },
    }
}

impl<A> From<Vec<A>> for w::Vector<A> {
    /// The vector of the elements, the first one at the head.
    fn from(vec: Vec<A>) -> (res: w::Vector<A>) {
        let ghost s = vec@;
        let mut vec = vec;
        let mut vector = w::Vector::nil;
        while vec.len() > 0
            invariant
                vector == vector_of(s.skip(vec@.len() as int)),
                vec@ == s.take(vec@.len() as int),
                vec@.len() <= s.len(),
            decreases vec@.len(),
        {
            let ghost k = vec@.len() - 1;
            let head = vec.pop().unwrap();
            proof {
                assert(s.skip(k).drop_first() =~= s.skip(k + 1));
                assert(s.skip(k)[0] == head);
                assert(vec@ =~= s.take(k));
            }
            vector = w::Vector::cons { head, tail: Box::new(vector) };
        }
        assert(s.skip(0) =~= s);
        vector
    }
}

impl<A> vstd::std_specs::convert::FromSpecImpl<Vec<A>> for w::Vector<A> {
    open spec fn obeys_from_spec() -> bool {
        true
    }

    open spec fn from_spec(v: Vec<A>) -> w::Vector<A> {
        vector_of(v@)
    }
}

impl<A> w::Vector<A> {
    /// The elements, head first.
    pub fn into_vec(self) -> (res: Vec<A>)
        ensures
            res@ == vector_elems(self),
    {
        let ghost s = vector_elems(self);
        let mut vec: Vec<A> = Vec::new();
        let mut cur = self;
        loop
            invariant
                vec@ + vector_elems(cur) == s,
                s == vector_elems(self),
            decreases vector_elems(cur).len(),
        {
            let ghost c = cur;
            match cur {
                w::Vector::nil => {
                    assert(vector_elems(c) =~= Seq::<A>::empty());
                    assert(vec@ + Seq::<A>::empty() =~= vec@);
                    return vec;
                },
                w::Vector::cons { head, tail } => {
                    let ghost rest = vector_elems(*tail);
                    assert(vec@.push(head) + rest =~= vec@ + (seq![head] + rest));
                    vec.push(head);
                    cur = *tail;
                },
            }
        }
    }
}

impl From<Vec<bool>> for w::Word {
    /// The word of the bits in order: the last bit ends up outermost.
    fn from(vector: Vec<bool>) -> (res: w::Word) {
        let mut word = w::Word::empty;
        let mut i: usize = 0;
        while i < vector.len()
            invariant
                i <= vector@.len(),
                word == word_of(vector@.take(i as int)),
            decreases vector@.len() - i,
        {
            proof {
                assert(vector@.take(i + 1).drop_last() =~= vector@.take(i as int));
                assert(vector@.take(i + 1).last() == vector@[i as int]);
            }
            if vector[i] {
                word = w::Word::high { after: Box::new(word) };
            } else {
                word = w::Word::low { after: Box::new(word) };
            }
            i = i + 1;
        }
        assert(vector@.take(vector@.len() as int) =~= vector@);
        word
    }
}

impl vstd::std_specs::convert::FromSpecImpl<Vec<bool>> for w::Word {
    open spec fn obeys_from_spec() -> bool {
        true
    }

    open spec fn from_spec(v: Vec<bool>) -> w::Word {
        word_of(v@)
    }
}

impl w::Word {
    /// The bits, outermost first.
    pub fn into_bits(self) -> (res: Vec<bool>)
        ensures
            res@ == word_bits(self),
    {
        let ghost s = word_bits(self);
        let mut vec: Vec<bool> = Vec::new();
        let mut cur = self;
        loop
            invariant
                vec@ + word_bits(cur) == s,
                s == word_bits(self),
            decreases word_bits(cur).len(),
        {
            let ghost c = cur;
            match cur {
                w::Word::empty => {
                    assert(word_bits(c) =~= Seq::<bool>::empty());
                    assert(vec@ + Seq::<bool>::empty() =~= vec@);
                    return vec;
                },
                w::Word::low { after } => {
                    let ghost rest = word_bits(*after);
                    assert(vec@.push(false) + rest =~= vec@ + (seq![false] + rest));
                    vec.push(false);
                    cur = *after;
                },
                w::Word::high { after } => {
                    let ghost rest = word_bits(*after);
                    assert(vec@.push(true) + rest =~= vec@ + (seq![true] + rest));
                    vec.push(true);
                    cur = *after;
                },
            }
        }
    }
}

impl From<usize> for w::Size {
    fn from(n: usize) -> (res: w::Size) {
        w::Size(n)
    }
}

impl vstd::std_specs::convert::FromSpecImpl<usize> for w::Size {
    open spec fn obeys_from_spec() -> bool {
        true
    }

    open spec fn from_spec(n: usize) -> w::Size {
        w::Size(n)
    }
}

impl From<w::Size> for usize {
    fn from(n: w::Size) -> (res: usize) {
        n.0
    }
}

impl vstd::std_specs::convert::FromSpecImpl<w::Size> for usize {
    open spec fn obeys_from_spec() -> bool {
        true
    }

    open spec fn from_spec(n: w::Size) -> usize {
        n.0
    }
}


pub open spec fn bit_nat(b: bool) -> nat {
    if b {
        1
    } else {
        0
    }
}

/// The number that the first `t` bits of byte `m` of `r` spell, most
/// significant bit first.
pub open spec fn byte_prefix(r: Seq<bool>, m: int, t: nat) -> nat
    decreases t,
{
    if t == 0 {
        0
    } else {
        2 * byte_prefix(r, m, (t - 1) as nat) + bit_nat(r[8 * m + t - 1])
    }
}

/// Byte `m` of a bit sequence: bits `8m` to `8m + 7`, most significant first.
pub open spec fn byte_at(r: Seq<bool>, m: int) -> nat {
    byte_prefix(r, m, 8)
}

/// The code point that the bits of a character word spell, read outermost
/// first: four bytes, the least significant byte first.
pub open spec fn code_of_bits(r: Seq<bool>) -> nat {
    byte_at(r, 3) * 16777216 + byte_at(r, 2) * 65536 + byte_at(r, 1) * 256 + byte_at(r, 0)
}

/// The code points of Rust characters.
pub open spec fn valid_code(v: nat) -> bool {
    v <= 0xD7FF || (0xE000 <= v && v <= 0x10FFFF)
}

pub open spec fn char_word_bits(c: w::Char) -> Seq<bool> {
    match c {
        w::Char::new { value } => word_bits(value),
    }
}

/// A character word is read as a Rust character when it has four whole
/// bytes (extra bits are ignored) that spell a code point.
pub open spec fn char_decodes(c: w::Char) -> bool {
    32 <= char_word_bits(c).len() < 40 && valid_code(code_of_bits(char_word_bits(c)))
}

/// The Welkin character of a Rust character: the word of the bits of its
/// code point, big-endian bytes each from its least significant bit, built
/// in that order.
pub open spec fn char_of(c: char) -> w::Char {
    w::Char::new { value: word_of(char_bits(c)) }
}

pub open spec fn p2(t: nat) -> nat
    decreases t,
{
    if t == 0 {
        1
    } else {
        2 * p2((t - 1) as nat)
    }
}

proof fn lemma_p2_mono(a: nat, b: nat)
    requires
        a <= b,
    ensures
        p2(a) <= p2(b),
    decreases b - a,
{
    if a < b {
        lemma_p2_mono(a, (b - 1) as nat);
    }
}

proof fn lemma_byte_prefix_bound(r: Seq<bool>, m: int, t: nat)
    ensures
        byte_prefix(r, m, t) < p2(t),
    decreases t,
{
    if t > 0 {
        lemma_byte_prefix_bound(r, m, (t - 1) as nat);
    }
}

fn byte_from(bits: &Vec<bool>, m: usize) -> (res: u32)
    requires
        8 * m + 8 <= bits@.len(),
    ensures
        res as nat == byte_at(bits@, m as int),
        res < 256,
{
    proof {
        reveal_with_fuel(p2, 9);
        lemma_byte_prefix_bound(bits@, m as int, 8);
    }
    let n = bits.len();
    let mut acc: u32 = 0;
    let mut t: usize = 0;
    while t < 8
        invariant
            t <= 8,
            n == bits@.len(),
            8 * m + 8 <= bits@.len(),
            acc as nat == byte_prefix(bits@, m as int, t as nat),
            acc < p2(t as nat),
            p2(8) == 256,
        decreases 8 - t,
    {
        proof {
            lemma_p2_mono((t + 1) as nat, 8);
        }
        let bit: u32 = if bits[8 * m + t] {
            1
        } else {
            0
        };
        acc = acc * 2 + bit;
        t = t + 1;
    }
    acc
}

/// `char::from_u32`: the character with the code point `v`, if `v` is one.
#[verifier::external_body]
fn char_from_u32(v: u32) -> (res: Option<char>)
    ensures
        res is Some <==> valid_code(v as nat),
        res is Some ==> res->0 as nat == v as nat,
{
    char::from_u32(v)
}

impl w::Char {
    /// The Rust character that the word spells.
    pub fn into_char(self) -> (res: char)
        requires
            char_decodes(self),
        ensures
            res as nat == code_of_bits(char_word_bits(self)),
    {
        let bits = match self {
            w::Char::new { value } => value.into_bits(),
        };
        let b0 = byte_from(&bits, 0);
        let b1 = byte_from(&bits, 1);
        let b2 = byte_from(&bits, 2);
        let b3 = byte_from(&bits, 3);
        let code: u32 = b3 * 16777216 + b2 * 65536 + b1 * 256 + b0;
        match char_from_u32(code) {
            Some(c) => c,
            None => vstd::pervasive::unreached(),
        }
    }
}

impl From<char> for w::Char {
    /// The word of the bits of the code point.
    fn from(c: char) -> (res: w::Char) {
        let bits = char_bit_vec(c);
        w::Char::new { value: w::Word::from(bits) }
    }
}

impl vstd::std_specs::convert::FromSpecImpl<char> for w::Char {
    open spec fn obeys_from_spec() -> bool {
        true
    }

    open spec fn from_spec(c: char) -> w::Char {
        char_of(c)
    }
}

proof fn lemma_bit01(x: u32)
    by (bit_vector)
    ensures
        (x & 1u32) == 1u32 || (x & 1u32) == 0u32,
{
}

proof fn lemma_byte_of_bits(v: u32, m: u32)
    by (bit_vector)
    requires
        m < 4,
    ensures
        ((v >> (8 * m + 7)) & 1u32) * 128 + ((v >> (8 * m + 6)) & 1u32) * 64 + ((v >> (8 * m + 5))
            & 1u32) * 32 + ((v >> (8 * m + 4)) & 1u32) * 16 + ((v >> (8 * m + 3)) & 1u32) * 8 + ((v
            >> (8 * m + 2)) & 1u32) * 4 + ((v >> (8 * m + 1)) & 1u32) * 2 + ((v >> (8 * m))
            & 1u32) == (v >> (8 * m)) & 0xffu32,
{
}

proof fn lemma_code_of_bytes(v: u32)
    by (bit_vector)
    ensures
        ((v >> 24u32) & 0xffu32) * 16777216 + ((v >> 16u32) & 0xffu32) * 65536 + ((v >> 8u32)
            & 0xffu32) * 256 + (v & 0xffu32) == v,
{
}

/// Bit `8m + t` of the reversed bits of a character is bit `8m + 7 - t` of its
/// code point.
proof fn lemma_reversed_bit(c: char, m: int, t: int)
    requires
        0 <= m < 4,
        0 <= t < 8,
    ensures
        bit_nat(char_bits(c).reverse()[8 * m + t]) == (((c as u32) >> ((8 * m + 7 - t) as u32))
            & 1u32) as nat,
{
    let k = 31 - (8 * m + t);
    assert(k / 8 == 3 - m && k % 8 == 7 - t) by (nonlinear_arith)
        requires
            k == 31 - (8 * m + t),
            0 <= m < 4,
            0 <= t < 8,
    ;
    assert(char_bits(c).reverse()[8 * m + t] == char_bits(c)[k]);
    assert(char_bits(c)[k] == char_bit(c, k));
    assert(((24 - 8 * (k / 8) + k % 8) as u32) == ((8 * m + 7 - t) as u32));
    lemma_bit01((c as u32) >> ((8 * m + 7 - t) as u32));
}

proof fn lemma_char_byte(c: char, m: int)
    requires
        0 <= m < 4,
    ensures
        byte_at(char_bits(c).reverse(), m) == (((c as u32) >> ((8 * m) as u32)) & 0xffu32) as nat,
{
    reveal_with_fuel(byte_prefix, 9);
    let r = char_bits(c).reverse();
    lemma_reversed_bit(c, m, 0);
    lemma_reversed_bit(c, m, 1);
    lemma_reversed_bit(c, m, 2);
    lemma_reversed_bit(c, m, 3);
    lemma_reversed_bit(c, m, 4);
    lemma_reversed_bit(c, m, 5);
    lemma_reversed_bit(c, m, 6);
    lemma_reversed_bit(c, m, 7);
    lemma_byte_of_bits(c as u32, m as u32);
}

/// A Rust character turned into a Welkin character and read back is the same
/// character.
pub proof fn lemma_char_round_trip(c: char)
    ensures
        char_decodes(char_of(c)),
        code_of_bits(char_word_bits(char_of(c))) == c as nat,
{
    lemma_word_reverses(char_bits(c));
    let r = char_bits(c).reverse();
    assert(char_word_bits(char_of(c)) == r);
    lemma_char_byte(c, 0);
    lemma_char_byte(c, 1);
    lemma_char_byte(c, 2);
    lemma_char_byte(c, 3);
    assert(((8 * 0int) as u32) == 0u32);
    assert(((8 * 1int) as u32) == 8u32);
    assert(((8 * 2int) as u32) == 16u32);
    assert(((8 * 3int) as u32) == 24u32);
    let v = c as u32;
    assert(v >> 0u32 == v) by (bit_vector);
    lemma_code_of_bytes(c as u32);
    assert(r.len() == 32);
}


/// The Welkin characters of a sequence of Rust characters.
pub open spec fn chars_of(s: Seq<char>) -> Seq<w::Char> {
    Seq::new(s.len(), |i: int| char_of(s[i]))
}

/// The Welkin string of a sequence of Rust characters.
pub open spec fn str_of(s: Seq<char>) -> w::Str {
    w::Str::new { value: vector_of(chars_of(s)) }
}

/// The Rust character a Welkin character spells.
pub open spec fn char_value(c: w::Char) -> char {
    code_of_bits(char_word_bits(c)) as char
}

pub open spec fn str_chars(s: w::Str) -> Seq<w::Char> {
    match s {
        w::Str::new { value } => vector_elems(value),
    }
}

/// Every character of the string spells a Rust character.
pub open spec fn str_decodes(s: w::Str) -> bool {
    forall|i: int| 0 <= i < str_chars(s).len() ==> char_decodes(#[trigger] str_chars(s)[i])
}

/// The Rust characters a Welkin string spells.
pub open spec fn str_value(s: w::Str) -> Seq<char> {
    Seq::new(str_chars(s).len(), |i: int| char_value(str_chars(s)[i]))
}

/// `String::push`: appends a character.
#[verifier::external_body]
pub(crate) fn push_char(s: &mut String, c: char)
    ensures
        final(s)@ == old(s)@.push(c),
{
    s.push(c);
}

impl From<String> for w::Str {
    /// The string of the Welkin characters of the characters.
    fn from(s: String) -> (res: w::Str) {
        let text = s.as_str();
        let n = text.unicode_len();
        let mut chars: Vec<w::Char> = Vec::new();
        let mut i: usize = 0;
        while i < n
            invariant
                i <= n,
                n == s@.len(),
                text@ == s@,
                chars@.len() == i,
                forall|k: int| 0 <= k < i ==> #[trigger] chars@[k] == char_of(s@[k]),
            decreases n - i,
        {
            chars.push(w::Char::from(text.get_char(i)));
            i = i + 1;
        }
        assert(chars@ =~= chars_of(s@));
        w::Str::new { value: w::Vector::from(chars) }
    }
}

impl vstd::std_specs::convert::FromSpecImpl<String> for w::Str {
    open spec fn obeys_from_spec() -> bool {
        true
    }

    open spec fn from_spec(s: String) -> w::Str {
        str_of(s@)
    }
}

impl w::Char {
    /// The Rust character that the word spells, as `char_value` gives it.
    pub fn to_rust(self) -> (res: char)
        requires
            char_decodes(self),
        ensures
            res == char_value(self),
    {
        let c = self.into_char();
        assert(c == (c as nat) as char);
        c
    }
}

impl w::Str {
    /// The Rust string that the Welkin string spells.
    pub fn into_string(self) -> (res: String)
        requires
            str_decodes(self),
        ensures
            res@ == str_value(self),
    {
        let ghost elems = str_chars(self);
        let mut chars = match self {
            w::Str::new { value } => value.into_vec(),
        };
        let mut out = String::new();
        let n = chars.len();
        let mut i: usize = 0;
        while chars.len() > 0
            invariant
                i + chars@.len() == n,
                n == elems.len(),
                chars@ == elems.skip(i as int),
                forall|k: int| 0 <= k < elems.len() ==> char_decodes(#[trigger] elems[k]),
                out@ == Seq::new(i as nat, |k: int| char_value(elems[k])),
            decreases chars@.len(),
        {
            let c = chars.remove(0);
            proof {
                assert(elems.skip(i as int)[0] == elems[i as int]);
                assert(chars@ =~= elems.skip(i + 1));
            }
            let r = c.to_rust();
            push_char(&mut out, r);
            proof {
                assert(out@ =~= Seq::new((i + 1) as nat, |k: int| char_value(elems[k])));
            }
            i = i + 1;
        }
        assert(out@ =~= str_value(self));
        out
    }
}

proof fn lemma_char_cast(c: char)
    ensures
        (c as nat) as char == c,
{
}

/// A string turned into a Welkin string and read back is the same string.
pub proof fn lemma_str_round_trip(s: Seq<char>)
    ensures
        str_decodes(str_of(s)),
        str_value(str_of(s)) == s,
{
    lemma_vector_round_trip(chars_of(s));
    assert forall|i: int| 0 <= i < s.len() implies char_decodes(#[trigger] chars_of(s)[i])
        && char_value(chars_of(s)[i]) == s[i] by {
        let c: char = s[i];
        lemma_char_round_trip(c);
        assert(chars_of(s)[i] == char_of(c));
        lemma_char_cast(c);
    }
    assert(str_value(str_of(s)) =~= s);
}


/// A term with a hole in it has no Welkin syntax.
#[derive(Debug, Clone, PartialEq, Eq, Structural)]
pub struct Incomplete;

pub open spec fn bool_of(b: bool) -> w::Bool {
    if b {
        w::Bool::True
    } else {
        w::Bool::False
    }
}

/// The Welkin syntax of a term: binder names are dropped, a reference keeps
/// its name with its length in bytes. Holes, annotations, literals and
/// indices beyond the machine range have none.
pub open spec fn ast_spec(t: Tm) -> Option<w::Ast>
    decreases t,
{
    match t {
        Tm::Lam { erased, body, .. } => match ast_spec(*body) {
            Some(b) => Some(w::Ast::Lambda { erased: bool_of(erased), body: Box::new(b) }),
            None => None,
        },
        Tm::Var(i) => if 0 <= i <= usize::MAX {
            Some(w::Ast::Variable { index: w::Size(i as usize) })
        } else {
            None
        },
        Tm::App { erased, function, argument } => match (ast_spec(*function), ast_spec(*argument)) {
            (Some(f), Some(a)) => Some(
                w::Ast::Application { erased: bool_of(erased), function: Box::new(f), argument: Box::new(a) },
            ),
            _ => None,
        },
        Tm::Put(e) => match ast_spec(*e) {
            Some(e) => Some(w::Ast::Put { term: Box::new(e) }),
            None => None,
        },
        Tm::Dup { expression, body, .. } => match (ast_spec(*expression), ast_spec(*body)) {
            (Some(e), Some(b)) => Some(
                w::Ast::Duplication { expression: Box::new(e), body: Box::new(b) },
            ),
            _ => None,
        },
        Tm::Ref(name) => Some(
            w::Ast::Reference {
                name: w::WithSize::new { size: w::Size(byte_len(name) as usize), data: str_of(name) },
            },
        ),
        Tm::Univ => Some(w::Ast::Universe),
        Tm::Fun { erased, argument_type, return_type, .. } => match (
            ast_spec(*argument_type),
            ast_spec(*return_type),
        ) {
            (Some(a), Some(r)) => Some(
                w::Ast::Function {
                    erased: bool_of(erased),
                    argument_type: Box::new(a),
                    return_type: Box::new(r),
                },
            ),
            _ => None,
        },
        Tm::Wrap(e) => match ast_spec(*e) {
            Some(e) => Some(w::Ast::Wrap { term: Box::new(e) }),
            None => None,
        },
        _ => None,
    }
}

/// The term holds a hole.
pub open spec fn has_hole(t: Tm) -> bool
    decreases t,
{
    match t {
        Tm::Lam { body, .. } => has_hole(*body),
        Tm::App { function, argument, .. } => has_hole(*function) || has_hole(*argument),
        Tm::Put(e) => has_hole(*e),
        Tm::Dup { expression, body, .. } => has_hole(*expression) || has_hole(*body),
        Tm::Fun { argument_type, return_type, .. } => has_hole(*argument_type) || has_hole(
            *return_type,
        ),
        Tm::Wrap(e) => has_hole(*e),
        Tm::Ann { term, ty, .. } => has_hole(*term) || has_hole(*ty),
        Tm::Hole => true,
        _ => false,
    }
}

/// An editor-shaped term without literals has a syntax exactly when it
/// holds no hole.
proof fn lemma_ast_none_iff_hole(t: Tm)
    requires
        plain_shaped(t),
    ensures
        ast_spec(t) is None <==> has_hole(t),
    decreases t,
{
    match t {
        Tm::Lam { body, .. } => lemma_ast_none_iff_hole(*body),
        Tm::App { function, argument, .. } => {
            lemma_ast_none_iff_hole(*function);
            lemma_ast_none_iff_hole(*argument);
        },
        Tm::Put(e) => lemma_ast_none_iff_hole(*e),
        Tm::Dup { expression, body, .. } => {
            lemma_ast_none_iff_hole(*expression);
            lemma_ast_none_iff_hole(*body);
        },
        Tm::Fun { argument_type, return_type, .. } => {
            lemma_ast_none_iff_hole(*argument_type);
            lemma_ast_none_iff_hole(*return_type);
        },
        Tm::Wrap(e) => lemma_ast_none_iff_hole(*e),
        _ => {},
    }
}

/// An editor term has no syntax (it is incomplete) exactly when, with its
/// literals expanded, it holds a hole.
pub proof fn lemma_incomplete_iff_hole(term: Term<()>)
    ensures
        ast_spec(unfold(term@)) is None <==> has_hole(unfold(term@)),
{
    lemma_ztm_shaped(term);
    lemma_unfold_plain(term@);
    lemma_ast_none_iff_hole(unfold(term@));
}

fn ast_of_term(term: Term<()>) -> (res: Result<w::Ast, Incomplete>)
    ensures
        res == match ast_spec(unfold(term@)) {
            Some(a) => Ok::<w::Ast, Incomplete>(a),
            None => Err(Incomplete),
        },
    decreases rank_bound(term@), term,
{
    match term {
        Term::Lambda { erased, body, .. } => {
            let body = ast_of_term(*body)?;
            Ok(w::Ast::Lambda { erased: w::Bool::from(erased), body: Box::new(body) })
        },
        Term::Application { erased, function, argument, .. } => {
            let function = ast_of_term(*function)?;
            let argument = ast_of_term(*argument)?;
            Ok(
                w::Ast::Application {
                    erased: w::Bool::from(erased),
                    function: Box::new(function),
                    argument: Box::new(argument),
                },
            )
        },
        Term::Put(term, _) => {
            let term = ast_of_term(*term)?;
            Ok(w::Ast::Put { term: Box::new(term) })
        },
        Term::Duplication { expression, body, .. } => {
            let expression = ast_of_term(*expression)?;
            let body = ast_of_term(*body)?;
            Ok(w::Ast::Duplication { expression: Box::new(expression), body: Box::new(body) })
        },
        Term::Reference(data, _) => {
            let size = w::Size::from(data.as_str().len());
            Ok(w::Ast::Reference { name: w::WithSize::new { size, data: w::Str::from(data) } })
        },
        Term::Universe(_) => Ok(w::Ast::Universe),
        Term::Function { erased, argument_type, return_type, .. } => {
            let argument_type = ast_of_term(*argument_type)?;
            let return_type = ast_of_term(*return_type)?;
            Ok(
                w::Ast::Function {
                    erased: w::Bool::from(erased),
                    argument_type: Box::new(argument_type),
                    return_type: Box::new(return_type),
                },
            )
        },
        Term::Wrap(term, _) => {
            let term = ast_of_term(*term)?;
            Ok(w::Ast::Wrap { term: Box::new(term) })
        },
        Term::Hole(_) => Err(Incomplete),
        Term::Compressed(data) => {
            let expanded = data.expand();
            proof {
                lemma_lit_step_rank(data@);
            }
            ast_of_term(expanded)
        },
    }
}

impl TryFrom<Term<()>> for w::Ast {
    type Error = Incomplete;

    /// The Welkin syntax of a term, its literals expanded; a hole anywhere
    /// makes it `Incomplete`.
    fn try_from(term: Term<()>) -> (res: Result<w::Ast, Incomplete>) {
        ast_of_term(term)
    }
}

impl vstd::std_specs::convert::TryFromSpecImpl<Term<()>> for w::Ast {
    open spec fn obeys_try_from_spec() -> bool {
        true
    }

    open spec fn try_from_spec(term: Term<()>) -> Result<w::Ast, Incomplete> {
        match ast_spec(unfold(term@)) {
            Some(a) => Ok(a),
            None => Err(Incomplete),
        }
    }
}


/// Every reference name in the syntax spells a Rust string.
pub open spec fn ast_decodes(a: w::Ast) -> bool
    decreases a,
{
    match a {
        w::Ast::Lambda { body, .. } => ast_decodes(*body),
        w::Ast::Application { function, argument, .. } => ast_decodes(*function) && ast_decodes(
            *argument,
        ),
        w::Ast::Put { term } => ast_decodes(*term),
        w::Ast::Duplication { expression, body } => ast_decodes(*expression) && ast_decodes(*body),
        w::Ast::Reference { name } => match name {
            w::WithSize::new { data, .. } => str_decodes(data),
        },
        w::Ast::Function { argument_type, return_type, .. } => ast_decodes(*argument_type)
            && ast_decodes(*return_type),
        w::Ast::Wrap { term } => ast_decodes(*term),
        _ => true,
    }
}

/// The term that Welkin syntax stands for, with no binder names.
pub open spec fn ast_tm(a: w::Ast) -> Tm
    decreases a,
{
    match a {
        w::Ast::Lambda { erased, body } => Tm::Lam {
            erased: erased is True,
            name: None,
            body: Box::new(ast_tm(*body)),
        },
        w::Ast::Variable { index } => Tm::Var(index.0 as int),
        w::Ast::Application { erased, function, argument } => Tm::App {
            erased: erased is True,
            function: Box::new(ast_tm(*function)),
            argument: Box::new(ast_tm(*argument)),
        },
        w::Ast::Put { term } => Tm::Put(Box::new(ast_tm(*term))),
        w::Ast::Duplication { expression, body } => Tm::Dup {
            binder: None,
            expression: Box::new(ast_tm(*expression)),
            body: Box::new(ast_tm(*body)),
        },
        w::Ast::Reference { name } => match name {
            w::WithSize::new { data, .. } => Tm::Ref(str_value(data)),
        },
        w::Ast::Universe => Tm::Univ,
        w::Ast::Function { erased, argument_type, return_type } => Tm::Fun {
            erased: erased is True,
            name: None,
            self_name: None,
            argument_type: Box::new(ast_tm(*argument_type)),
            return_type: Box::new(ast_tm(*return_type)),
        },
        w::Ast::Wrap { term } => Tm::Wrap(Box::new(ast_tm(*term))),
    }
}

/// The term with the names of its binders dropped.
pub open spec fn erase_names(t: Tm) -> Tm
    decreases t,
{
    match t {
        Tm::Lam { erased, body, .. } => Tm::Lam { erased, name: None, body: Box::new(erase_names(*body)) },
        Tm::App { erased, function, argument } => Tm::App {
            erased,
            function: Box::new(erase_names(*function)),
            argument: Box::new(erase_names(*argument)),
        },
        Tm::Put(e) => Tm::Put(Box::new(erase_names(*e))),
        Tm::Dup { expression, body, .. } => Tm::Dup {
            binder: None,
            expression: Box::new(erase_names(*expression)),
            body: Box::new(erase_names(*body)),
        },
        Tm::Fun { erased, argument_type, return_type, .. } => Tm::Fun {
            erased,
            name: None,
            self_name: None,
            argument_type: Box::new(erase_names(*argument_type)),
            return_type: Box::new(erase_names(*return_type)),
        },
        Tm::Wrap(e) => Tm::Wrap(Box::new(erase_names(*e))),
        Tm::Ann { checked, term, ty } => Tm::Ann {
            checked,
            term: Box::new(erase_names(*term)),
            ty: Box::new(erase_names(*ty)),
        },
        _ => t,
    }
}

impl w::Ast {
    /// The analysis term of the syntax: no binder names, unit annotations.
    pub fn into_analysis(self) -> (res: AnalysisTerm<()>)
        requires
            ast_decodes(self),
        ensures
            res@ == ast_tm(self),
        decreases self,
    {
        match self {
            w::Ast::Lambda { erased, body } => AnalysisTerm::Lambda {
                erased: bool::from(erased),
                name: None,
                body: Box::new((*body).into_analysis()),
                annotation: (),
            },
            w::Ast::Variable { index } => AnalysisTerm::Variable(usize::from(index), ()),
            w::Ast::Application { erased, function, argument } => AnalysisTerm::Application {
                erased: bool::from(erased),
                function: Box::new((*function).into_analysis()),
                argument: Box::new((*argument).into_analysis()),
                annotation: (),
            },
            w::Ast::Put { term } => AnalysisTerm::Put(Box::new((*term).into_analysis()), ()),
            w::Ast::Duplication { expression, body } => AnalysisTerm::Duplication {
                binder: None,
                expression: Box::new((*expression).into_analysis()),
                body: Box::new((*body).into_analysis()),
                annotation: (),
            },
            w::Ast::Reference { name } => match name {
                w::WithSize::new { data, .. } => AnalysisTerm::Reference(data.into_string(), ()),
            },
            w::Ast::Universe => AnalysisTerm::Universe(()),
            w::Ast::Function { erased, argument_type, return_type } => AnalysisTerm::Function {
                erased: bool::from(erased),
                name: None,
                self_name: None,
                argument_type: Box::new((*argument_type).into_analysis()),
                return_type: Box::new((*return_type).into_analysis()),
                annotation: (),
            },
            w::Ast::Wrap { term } => AnalysisTerm::Wrap(Box::new((*term).into_analysis()), ()),
        }
    }
}

/// The Welkin syntax of a term reads back as the term without its binder
/// names.
pub proof fn lemma_ast_round_trip(t: Tm)
    requires
        ast_spec(t) is Some,
    ensures
        ast_decodes(ast_spec(t)->0),
        ast_tm(ast_spec(t)->0) == erase_names(t),
    decreases t,
{
    match t {
        Tm::Lam { body, .. } => lemma_ast_round_trip(*body),
        Tm::App { function, argument, .. } => {
            lemma_ast_round_trip(*function);
            lemma_ast_round_trip(*argument);
        },
        Tm::Put(e) => lemma_ast_round_trip(*e),
        Tm::Dup { expression, body, .. } => {
            lemma_ast_round_trip(*expression);
            lemma_ast_round_trip(*body);
        },
        Tm::Ref(name) => lemma_str_round_trip(name),
        Tm::Fun { argument_type, return_type, .. } => {
            lemma_ast_round_trip(*argument_type);
            lemma_ast_round_trip(*return_type);
        },
        Tm::Wrap(e) => lemma_ast_round_trip(*e),
        _ => {},
    }
}

} // verus!
