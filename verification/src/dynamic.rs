//! Extension nodes of the editor: their colours, their edits, and the frame
//! in which they are stored.
use vstd::prelude::*;

verus! {

/// The colour of a field of an extension node.
#[derive(Clone, Debug, PartialEq)]
pub enum Color {
    Data,
    Reference,
    Binding,
    Hole,
    Type,
}

/// The style class that shows a colour.
pub fn color_to_class(color: Color) -> (res: &'static str)
    ensures
        res@ == match color {
            Color::Data => "color-data"@,
            Color::Reference => "color-reference"@,
            Color::Binding => "color-binding"@,
            Color::Hole => "color-hole"@,
            Color::Type => "color-type"@,
        },
{
    match color {
        Color::Data => "color-data",
        Color::Reference => "color-reference",
        Color::Binding => "color-binding",
        Color::Hole => "color-hole",
        Color::Type => "color-type",
    }
}

/// Edits of a definition node.
#[derive(Clone, Debug, PartialEq)]
pub enum DefMutation {
    Focus,
    Remove,
    Update(String),
}

/// Edits of the root of an extension node.
#[derive(Clone, Debug, PartialEq)]
pub enum RootMutation {
    Remove,
}

/// Why a stored extension node could not be read.
#[derive(Debug, PartialEq, Eq, Structural)]
pub enum DynamicReadError {
    TooShort,
    Unknown(u8),
    Invalid,
}

/// The kinds of stored extension nodes, told apart by the first byte.
#[derive(Debug, PartialEq, Eq, Structural)]
pub enum DynamicKind {
    /// A definition, tagged `D`.
    Def,
    /// A control, tagged `i`.
    Control,
}

/// The tag byte of a kind of extension node.
pub open spec fn kind_tag(kind: DynamicKind) -> u8 {
    match kind {
        DynamicKind::Def => 68u8,
        DynamicKind::Control => 105u8,
    }
}

/// Reads the frame of a stored extension node: the tag byte, then the
/// encoded data of that kind. An empty buffer is too short, and a tag of no
/// known kind is reported with its byte. The payload is handed back still
/// encoded: a payload that does not decode is invalid (see
/// `controls::root_from_decoded`).
pub fn read_frame(data: &[u8]) -> (res: Result<(DynamicKind, Vec<u8>), DynamicReadError>)
    ensures
        data@.len() == 0 ==> res == Err::<(DynamicKind, Vec<u8>), DynamicReadError>(
            DynamicReadError::TooShort,
        ),
        data@.len() > 0 && data@[0] == 68u8 ==> res is Ok && res->Ok_0.0 == DynamicKind::Def,
        data@.len() > 0 && data@[0] == 105u8 ==> res is Ok && res->Ok_0.0 == DynamicKind::Control,
        data@.len() > 0 && data@[0] != 68u8 && data@[0] != 105u8 ==> res == Err::<
            (DynamicKind, Vec<u8>),
            DynamicReadError,
        >(DynamicReadError::Unknown(data@[0])),
        res is Ok ==> res->Ok_0.1@ == data@.subrange(1, data@.len() as int),
{
    if data.len() == 0 {
        return Err(DynamicReadError::TooShort);
    }
    let first = data[0];
    let kind = if first == 68u8 {
        DynamicKind::Def
    } else if first == 105u8 {
        DynamicKind::Control
    } else {
        return Err(DynamicReadError::Unknown(first));
    };
    let mut payload: Vec<u8> = Vec::new();
    let mut i: usize = 1;
    while i < data.len()
        invariant
            1 <= i <= data@.len(),
            payload@ == data@.subrange(1, i as int),
        decreases data@.len() - i,
    {
        payload.push(data[i]);
        proof {
            assert(data@.subrange(1, i + 1) =~= data@.subrange(1, i as int).push(data@[i as int]));
        }
        i = i + 1;
    }
    Ok((kind, payload))
}

/// Frames the encoded data of an extension node: its tag byte first.
pub fn write_frame(kind: DynamicKind, encoded: &[u8]) -> (res: Vec<u8>)
    ensures
        res@ == seq![kind_tag(kind)] + encoded@,
{
    let mut buffer: Vec<u8> = Vec::new();
    match kind {
        DynamicKind::Def => buffer.push(68u8),
        DynamicKind::Control => buffer.push(105u8),
    }
    let mut i: usize = 0;
    while i < encoded.len()
        invariant
            i <= encoded@.len(),
            buffer@ == seq![kind_tag(kind)] + encoded@.subrange(0, i as int),
        decreases encoded@.len() - i,
    {
        buffer.push(encoded[i]);
        proof {
            assert(encoded@.subrange(0, i + 1) =~= encoded@.subrange(0, i as int).push(encoded@[i as int]));
            assert(seq![kind_tag(kind)] + encoded@.subrange(0, i + 1) =~= (seq![kind_tag(kind)]
                + encoded@.subrange(0, i as int)).push(encoded@[i as int]));
        }
        i = i + 1;
    }
    proof {
        assert(encoded@.subrange(0, encoded@.len() as int) =~= encoded@);
    }
    buffer
}

/// Reading a frame gives back the kind and the data it was written with.
pub proof fn lemma_frame_round_trip(kind: DynamicKind, encoded: Seq<u8>)
    ensures
        (seq![kind_tag(kind)] + encoded)[0] == kind_tag(kind),
        (seq![kind_tag(kind)] + encoded).subrange(1, (seq![kind_tag(kind)] + encoded).len() as int)
            == encoded,
{
    assert((seq![kind_tag(kind)] + encoded).subrange(1, (seq![kind_tag(kind)] + encoded).len() as int) =~= encoded);
}

} // verus!
