//! The controls of extension nodes: what each holds, the term it stands for,
//! the data it is stored as, and the control that the text typed into it
//! turns it into.
use vstd::prelude::*;

use crate::literal::{CompressedSize, CompressedString, CompressedTerm, Lit};
use crate::dynamic::DynamicReadError;
use crate::zipper::Term;

verus! {

/// A variant of an algebraic data type control: its name.
#[derive(Debug, PartialEq)]
pub struct AdtVariantData {
    pub name: String,
}

/// The stored form of an algebraic data type control.
#[derive(Debug, PartialEq)]
pub struct AdtData {
    pub name: String,
    pub variants: Vec<AdtVariantData>,
}

/// The stored form of a control.
#[derive(Debug, PartialEq)]
pub enum ControlData {
    Adt(AdtData),
    Literal,
    Invoke,
    StringLiteral(String),
    SizeLiteral(usize),
    Variable(usize),
}

/// A de Bruijn variable shown by its index.
#[derive(Debug, PartialEq)]
pub struct Variable {
    pub content: usize,
}

/// The prompt that a new extension node starts as: the name typed into it
/// picks the control it becomes.
#[derive(Debug, PartialEq)]
pub struct Invoke {
    pub field_content: String,
}

/// The prompt for a literal: the type typed into it picks the literal.
#[derive(Debug, PartialEq)]
pub struct Literal {
    pub field_content: String,
}

/// A size literal.
#[derive(Debug, PartialEq)]
pub struct SizeLiteral {
    pub field_content: usize,
}

/// A string literal.
#[derive(Debug, PartialEq)]
pub struct StringLiteral {
    pub field_content: String,
}

/// An algebraic data type: its name, the variants shown, and the variants
/// that are still to be shown.
#[derive(Debug, PartialEq)]
pub struct Adt {
    pub data_name: String,
    pub variants: Vec<AdtVariantData>,
    pub add_variants: Vec<AdtVariantData>,
}

/// A control of any kind.
#[derive(Debug, PartialEq)]
pub enum Control {
    Adt(Adt),
    Invoke(Invoke),
    Literal(Literal),
    StringLiteral(StringLiteral),
    SizeLiteral(SizeLiteral),
    Variable(Variable),
}

/// The names of a list of variants.
pub open spec fn variant_names(v: Seq<AdtVariantData>) -> Seq<Seq<char>> {
    Seq::new(v.len(), |i: int| v[i].name@)
}

fn copy_variants(v: &Vec<AdtVariantData>) -> (res: Vec<AdtVariantData>)
    ensures
        variant_names(res@) == variant_names(v@),
{
    let mut out: Vec<AdtVariantData> = Vec::new();
    let mut i: usize = 0;
    while i < v.len()
        invariant
            i <= v@.len(),
            out@.len() == i,
            forall|k: int| 0 <= k < i ==> #[trigger] out@[k].name@ == v@[k].name@,
        decreases v@.len() - i,
    {
        out.push(AdtVariantData { name: v[i].name.clone() });
        i = i + 1;
    }
    assert(variant_names(out@) =~= variant_names(v@));
    out
}

impl Variable {
    pub fn new(size: usize) -> (res: Self)
        ensures
            res.content == size,
    {
        Variable { content: size }
    }

    /// A variable control stands for a hole until it is bound.
    pub fn expand(&self) -> (res: Term<()>)
        ensures
            res == Term::Hole(()),
    {
        Term::Hole(())
    }

    pub fn encode(&self) -> (res: ControlData)
        ensures
            res == ControlData::Variable(self.content),
    {
        ControlData::Variable(self.content)
    }
}

/// The control that the text of an invocation prompt names: `lit` or
/// `literal` names the literal prompt.
pub open spec fn invoked(text: Seq<char>) -> Option<ControlData> {
    if text == "lit"@ || text == "literal"@ {
        Some(ControlData::Literal)
    } else {
        None
    }
}

/// The kinds of literal that a literal prompt can become.
#[derive(Debug, PartialEq, Eq, Structural)]
pub enum LiteralKind {
    String,
    Size,
}

/// The literal that the text of a literal prompt names: `String` or `Size`.
pub open spec fn literal_named(text: Seq<char>) -> Option<LiteralKind> {
    if text == "String"@ {
        Some(LiteralKind::String)
    } else if text == "Size"@ {
        Some(LiteralKind::Size)
    } else {
        None
    }
}

fn text_is(text: &String, word: &str) -> (res: bool)
    ensures
        res == (text@ == word@),
{
    let t = text.as_str();
    let n = t.unicode_len();
    if n != word.unicode_len() {
        return false;
    }
    let mut i: usize = 0;
    while i < n
        invariant
            i <= n,
            n == t@.len(),
            n == word@.len(),
            t@ == text@,
            forall|k: int| 0 <= k < i ==> t@[k] == word@[k],
        decreases n - i,
    {
        if t.get_char(i) != word.get_char(i) {
            return false;
        }
        i = i + 1;
    }
    assert(t@ =~= word@);
    true
}

impl Invoke {
    pub fn new() -> (res: Self)
        ensures
            res.field_content@ == Seq::<char>::empty(),
    {
        Invoke { field_content: String::new() }
    }

    /// Takes in the text of the prompt's field, where there is new text.
    pub fn read(&mut self, data: Option<String>)
        ensures
            final(self).field_content == match data {
                Some(d) => d,
                None => old(self).field_content,
            },
    {
        if let Some(d) = data {
            self.field_content = d;
        }
    }

    /// The stored form of the control that the prompt becomes when the text
    /// is confirmed, if the text names one.
    pub fn appended(&self) -> (res: Option<ControlData>)
        ensures
            res == invoked(self.field_content@),
    {
        proof {
            reveal_strlit("lit");
            reveal_strlit("literal");
        }
        if text_is(&self.field_content, "lit") || text_is(&self.field_content, "literal") {
            Some(ControlData::Literal)
        } else {
            None
        }
    }

    pub fn expand(&self) -> (res: Term<()>)
        ensures
            res == Term::Hole(()),
    {
        Term::Hole(())
    }

    pub fn encode(&self) -> (res: ControlData)
        ensures
            res == ControlData::Invoke,
    {
        ControlData::Invoke
    }
}

impl Literal {
    pub fn new() -> (res: Self)
        ensures
            res.field_content@ == Seq::<char>::empty(),
    {
        Literal { field_content: String::new() }
    }

    /// Takes in the text of the prompt's field, where there is new text.
    pub fn read(&mut self, data: Option<String>)
        ensures
            final(self).field_content == match data {
                Some(d) => d,
                None => old(self).field_content,
            },
    {
        if let Some(d) = data {
            self.field_content = d;
        }
    }

    /// The stored form of the literal that the prompt becomes when the text
    /// is confirmed, if the text names one; the literal starts out empty.
    pub fn appended(&self) -> (res: Option<ControlData>)
        ensures
            match literal_named(self.field_content@) {
                Some(LiteralKind::String) => res matches Some(ControlData::StringLiteral(s)) && s@
                    == Seq::<char>::empty(),
                Some(LiteralKind::Size) => res == Some(ControlData::SizeLiteral(0)),
                None => res is None,
            },
    {
        proof {
            reveal_strlit("String");
            reveal_strlit("Size");
        }
        if text_is(&self.field_content, "String") {
            Some(ControlData::StringLiteral(String::new()))
        } else if text_is(&self.field_content, "Size") {
            Some(ControlData::SizeLiteral(0))
        } else {
            None
        }
    }

    /// Clearing the prompt goes back to the invocation prompt.
    pub fn removed(&self) -> (res: ControlData)
        ensures
            res == ControlData::Invoke,
    {
        ControlData::Invoke
    }

    pub fn expand(&self) -> (res: Term<()>)
        ensures
            res == Term::Hole(()),
    {
        Term::Hole(())
    }

    pub fn encode(&self) -> (res: ControlData)
        ensures
            res == ControlData::Literal,
    {
        ControlData::Literal
    }
}

/// The value of a run of decimal digits.
pub open spec fn digits_value(s: Seq<char>) -> nat
    decreases s.len(),
{
    if s.len() == 0 {
        0
    } else {
        (digits_value(s.drop_last()) * 10 + (s.last() as nat - '0' as nat)) as nat
    }
}

pub open spec fn all_digits(s: Seq<char>) -> bool {
    forall|i: int| 0 <= i < s.len() ==> '0' <= #[trigger] s[i] <= '9'
}

/// The size that a text reads as: an optional `+` and at least one decimal
/// digit, within the range of `usize`; any other text reads as zero.
pub open spec fn size_of_text(s: Seq<char>) -> nat {
    let digits = if s.len() > 0 && s[0] == '+' {
        s.skip(1)
    } else {
        s
    };
    if digits.len() > 0 && all_digits(digits) && digits_value(digits) <= usize::MAX {
        digits_value(digits)
    } else {
        0
    }
}

/// Reads a size from text as `size_of_text` says.
pub fn parse_size(text: &str) -> (res: usize)
    ensures
        res as nat == size_of_text(text@),
{
    let n = text.unicode_len();
    let start: usize = if n > 0 && text.get_char(0) == '+' {
        1
    } else {
        0
    };
    let ghost digits = text@.skip(start as int);
    proof {
        assert(digits =~= (if text@.len() > 0 && text@[0] == '+' {
            text@.skip(1)
        } else {
            text@
        }));
    }
    if start >= n {
        return 0;
    }
    let mut value: usize = 0;
    let mut i: usize = start;
    while i < n
        invariant
            start <= i <= n,
            n == text@.len(),
            start < n,
            digits == text@.skip(start as int),
            digits == (if text@.len() > 0 && text@[0] == '+' {
                text@.skip(1)
            } else {
                text@
            }),
            all_digits(text@.subrange(start as int, i as int)),
            value as nat == digits_value(text@.subrange(start as int, i as int)),
        decreases n - i,
    {
        let c = text.get_char(i);
        let ghost done = text@.subrange(start as int, i as int);
        let ghost next = text@.subrange(start as int, i + 1);
        proof {
            assert(next.drop_last() =~= done);
            assert(next.last() == c);
        }
        if !('0' <= c && c <= '9') {
            proof {
                assert(!all_digits(digits)) by {
                    assert(digits[i - start] == c);
                }
                assert(size_of_text(text@) == 0);
            }
            return 0;
        }
        let d: usize = (c as u32 - '0' as u32) as usize;
        if value > (usize::MAX - d) / 10 {
            proof {
                assert(digits_value(next) > usize::MAX) by (nonlinear_arith)
                    requires
                        digits_value(next) == value * 10 + d,
                        value > (usize::MAX - d) / 10,
                        d <= 9,
                ;
                if all_digits(digits) {
                    lemma_digits_prefix(digits, (i + 1 - start) as int);
                    assert(digits.take((i + 1 - start) as int) =~= next);
                }
                assert(size_of_text(text@) == 0);
            }
            return 0;
        }
        proof {
            assert(value * 10 + d <= usize::MAX) by (nonlinear_arith)
                requires
                    value <= (usize::MAX - d) / 10,
                    d <= 9,
            ;
        }
        value = value * 10 + d;
        i = i + 1;
    }
    proof {
        assert(text@.subrange(start as int, n as int) =~= digits);
    }
    value
}

/// The value of a run of digits is at least that of any of its prefixes.
proof fn lemma_digits_prefix(s: Seq<char>, k: int)
    requires
        0 <= k <= s.len(),
        all_digits(s),
    ensures
        digits_value(s.take(k)) <= digits_value(s),
    decreases s.len(),
{
    if k < s.len() {
        lemma_digits_prefix(s.drop_last(), k);
        assert(s.drop_last().take(k) =~= s.take(k));
        assert('0' <= s.last());
    } else {
        assert(s.take(k) =~= s);
    }
}

impl SizeLiteral {
    pub fn new() -> (res: Self)
        ensures
            res.field_content == 0,
    {
        SizeLiteral { field_content: 0 }
    }

    pub fn from(field_content: usize) -> (res: Self)
        ensures
            res.field_content == field_content,
    {
        SizeLiteral { field_content }
    }

    /// Takes in the text of the literal's field, where there is new text:
    /// text that is no size reads as zero.
    pub fn read(&mut self, data: Option<String>)
        ensures
            final(self).field_content as nat == match data {
                Some(d) => size_of_text(d@),
                None => old(self).field_content as nat,
            },
    {
        if let Some(d) = data {
            self.field_content = parse_size(d.as_str());
        }
    }

    /// Clearing the literal goes back to the literal prompt.
    pub fn removed(&self) -> (res: ControlData)
        ensures
            res == ControlData::Literal,
    {
        ControlData::Literal
    }

    pub fn expand(&self) -> (res: Term<()>)
        ensures
            res matches Term::Compressed(c) && c@ == Lit::Size(self.field_content as nat),
    {
        Term::Compressed(CompressedTerm::Size(CompressedSize::new(self.field_content)))
    }

    pub fn encode(&self) -> (res: ControlData)
        ensures
            res == ControlData::SizeLiteral(self.field_content),
    {
        ControlData::SizeLiteral(self.field_content)
    }
}

impl StringLiteral {
    pub fn new() -> (res: Self)
        ensures
            res.field_content@ == Seq::<char>::empty(),
    {
        StringLiteral { field_content: String::new() }
    }

    pub fn from(field_content: String) -> (res: Self)
        ensures
            res.field_content == field_content,
    {
        StringLiteral { field_content }
    }

    /// Takes in the text of the literal's field, where there is new text.
    pub fn read(&mut self, data: Option<String>)
        ensures
            final(self).field_content == match data {
                Some(d) => d,
                None => old(self).field_content,
            },
    {
        if let Some(d) = data {
            self.field_content = d;
        }
    }

    /// Clearing the literal goes back to the literal prompt.
    pub fn removed(&self) -> (res: ControlData)
        ensures
            res == ControlData::Literal,
    {
        ControlData::Literal
    }

    pub fn expand(&self) -> (res: Term<()>)
        ensures
            res matches Term::Compressed(c) && c@ == Lit::Str(self.field_content@),
    {
        Term::Compressed(CompressedTerm::String(CompressedString::new(self.field_content.clone())))
    }

    pub fn encode(&self) -> (res: ControlData)
        ensures
            res matches ControlData::StringLiteral(s) && s@ == self.field_content@,
    {
        ControlData::StringLiteral(self.field_content.clone())
    }
}

impl Adt {
    pub fn new() -> (res: Self)
        ensures
            res.data_name@ == Seq::<char>::empty(),
            res.variants@.len() == 0,
            res.add_variants@.len() == 0,
    {
        Adt { data_name: String::new(), variants: Vec::new(), add_variants: Vec::new() }
    }

    /// A stored type: its variants are still to be shown.
    pub fn from(data: AdtData) -> (res: Self)
        ensures
            res.data_name == data.name,
            res.variants@.len() == 0,
            res.add_variants == data.variants,
    {
        Adt { data_name: data.name, variants: Vec::new(), add_variants: data.variants }
    }

    /// The type stands for a reference to its name.
    pub fn expand(&self) -> (res: Term<()>)
        ensures
            res matches Term::Reference(n, _) && n@ == self.data_name@,
    {
        Term::Reference(self.data_name.clone(), ())
    }

    /// The stored form: the name and the variants shown.
    pub fn encode(&self) -> (res: ControlData)
        ensures
            res matches ControlData::Adt(d) && d.name@ == self.data_name@ && variant_names(
                d.variants@,
            ) == variant_names(self.variants@),
    {
        ControlData::Adt(AdtData { name: self.data_name.clone(), variants: copy_variants(&self.variants) })
    }
}

impl ControlData {
    /// The control that stored data stands for.
    pub fn to_control(self) -> (res: Control)
        ensures
            match self {
                ControlData::Adt(d) => res == Control::Adt(
                    Adt { data_name: d.name, variants: res->Adt_0.variants, add_variants: d.variants },
                ) && res->Adt_0.variants@.len() == 0,
                ControlData::Invoke => res matches Control::Invoke(c) && c.field_content@.len() == 0,
                ControlData::Literal => res matches Control::Literal(c) && c.field_content@.len() == 0,
                ControlData::StringLiteral(s) => res == Control::StringLiteral(
                    StringLiteral { field_content: s },
                ),
                ControlData::SizeLiteral(n) => res == Control::SizeLiteral(
                    SizeLiteral { field_content: n },
                ),
                ControlData::Variable(n) => res == Control::Variable(Variable { content: n }),
            },
    {
        match self {
            ControlData::Adt(data) => Control::Adt(Adt::from(data)),
            ControlData::Invoke => Control::Invoke(Invoke::new()),
            ControlData::Literal => Control::Literal(Literal::new()),
            ControlData::StringLiteral(data) => Control::StringLiteral(StringLiteral::from(data)),
            ControlData::SizeLiteral(size) => Control::SizeLiteral(SizeLiteral::from(size)),
            ControlData::Variable(size) => Control::Variable(Variable::new(size)),
        }
    }
}

/// The control of a stored root node from the decoded payload of its frame:
/// a payload that did not decode is invalid.
pub fn root_from_decoded(decoded: Option<ControlData>) -> (res: Result<Control, DynamicReadError>)
    ensures
        decoded is None ==> res == Err::<Control, DynamicReadError>(DynamicReadError::Invalid),
        decoded is Some ==> res is Ok,
        decoded matches Some(ControlData::SizeLiteral(n)) ==> res == Ok::<Control, DynamicReadError>(
            Control::SizeLiteral(SizeLiteral { field_content: n }),
        ),
        decoded matches Some(ControlData::Variable(n)) ==> res == Ok::<Control, DynamicReadError>(
            Control::Variable(Variable { content: n }),
        ),
        decoded matches Some(ControlData::StringLiteral(t)) ==> res == Ok::<Control, DynamicReadError>(
            Control::StringLiteral(StringLiteral { field_content: t }),
        ),
        decoded matches Some(ControlData::Invoke) ==> res matches Ok(Control::Invoke(c))
            && c.field_content@.len() == 0,
        decoded matches Some(ControlData::Literal) ==> res matches Ok(Control::Literal(c))
            && c.field_content@.len() == 0,
        decoded matches Some(ControlData::Adt(d)) ==> res matches Ok(Control::Adt(a))
            && a.data_name == d.name && a.add_variants == d.variants && a.variants@.len() == 0,
{
    match decoded {
        Some(data) => Ok(data.to_control()),
        None => Err(DynamicReadError::Invalid),
    }
}

} // verus!
