//! The edits that the editor queues on the nodes of a term, and how the
//! queued edits of one node change the cursor on it.
use vstd::prelude::*;

use crate::dynamic::DefMutation;
use crate::literal::Zero;
use crate::term::Tm;
use crate::zipper::{
    ascended, lit_step, placed, ApplicationCursor, Cursor, DuplicationCursor, FunctionCursor, HoleCursor,
    LambdaCursor, Path, PutCursor, ReferenceCursor, Term, UniverseCursor, WrapCursor,
};

verus! {

/// Edits of a reference.
#[derive(Clone, Debug, PartialEq)]
pub enum ReferenceMutation {
    Update(String),
    Focus,
    Remove,
}

/// Edits of a lambda.
#[derive(Clone, Debug, PartialEq)]
pub enum LambdaMutation {
    Update(String),
    Focus,
    Remove,
    ToggleErased,
}

/// Edits of a hole: it can be filled with a term or give the focus to its
/// parent.
#[derive(Debug, PartialEq)]
pub enum HoleMutation<T> {
    Focus,
    Replace(Term<T>),
    ToParent,
}

/// Edits of an application.
#[derive(Clone, Debug, PartialEq)]
pub enum ApplicationMutation {
    Focus,
    Remove,
    ToggleErased,
}

/// Edits of the universe.
#[derive(Clone, Debug, PartialEq)]
pub enum UniverseMutation {
    Focus,
    Remove,
}

/// Edits of a `wrap`.
#[derive(Clone, Debug, PartialEq)]
pub enum WrapMutation {
    Focus,
    Remove,
}

/// Edits of a `put`.
#[derive(Clone, Debug, PartialEq)]
pub enum PutMutation {
    Focus,
    Remove,
}

/// Edits of a duplication.
#[derive(Clone, Debug, PartialEq)]
pub enum DuplicationMutation {
    Focus,
    Remove,
    Update(String),
}

/// Edits of a function type.
#[derive(Clone, Debug, PartialEq)]
pub enum FunctionMutation {
    Focus,
    FocusSelf,
    Remove,
    Update(String),
    UpdateSelf(String),
    ToggleErased,
}

/// What all the kinds of edits have in common: an edit may remove the node
/// and may ask for the focus.
pub trait NodeMutation {
    spec fn removes(&self) -> bool;

    spec fn focuses(&self) -> bool;

    fn is_remove(&self) -> (res: bool)
        ensures
            res == self.removes(),
    ;

    fn is_focus(&self) -> (res: bool)
        ensures
            res == self.focuses(),
    ;
}

impl NodeMutation for ReferenceMutation {
    open spec fn removes(&self) -> bool {
        *self is Remove
    }

    open spec fn focuses(&self) -> bool {
        *self is Focus
    }

    fn is_remove(&self) -> (res: bool) {
        matches!(self, ReferenceMutation::Remove)
    }

    fn is_focus(&self) -> (res: bool) {
        matches!(self, ReferenceMutation::Focus)
    }
}

impl NodeMutation for LambdaMutation {
    open spec fn removes(&self) -> bool {
        *self is Remove
    }

    open spec fn focuses(&self) -> bool {
        *self is Focus
    }

    fn is_remove(&self) -> (res: bool) {
        matches!(self, LambdaMutation::Remove)
    }

    fn is_focus(&self) -> (res: bool) {
        matches!(self, LambdaMutation::Focus)
    }
}

impl NodeMutation for ApplicationMutation {
    open spec fn removes(&self) -> bool {
        *self is Remove
    }

    open spec fn focuses(&self) -> bool {
        *self is Focus
    }

    fn is_remove(&self) -> (res: bool) {
        matches!(self, ApplicationMutation::Remove)
    }

    fn is_focus(&self) -> (res: bool) {
        matches!(self, ApplicationMutation::Focus)
    }
}

impl NodeMutation for UniverseMutation {
    open spec fn removes(&self) -> bool {
        *self is Remove
    }

    open spec fn focuses(&self) -> bool {
        *self is Focus
    }

    fn is_remove(&self) -> (res: bool) {
        matches!(self, UniverseMutation::Remove)
    }

    fn is_focus(&self) -> (res: bool) {
        matches!(self, UniverseMutation::Focus)
    }
}

impl NodeMutation for WrapMutation {
    open spec fn removes(&self) -> bool {
        *self is Remove
    }

    open spec fn focuses(&self) -> bool {
        *self is Focus
    }

    fn is_remove(&self) -> (res: bool) {
        matches!(self, WrapMutation::Remove)
    }

    fn is_focus(&self) -> (res: bool) {
        matches!(self, WrapMutation::Focus)
    }
}

impl NodeMutation for PutMutation {
    open spec fn removes(&self) -> bool {
        *self is Remove
    }

    open spec fn focuses(&self) -> bool {
        *self is Focus
    }

    fn is_remove(&self) -> (res: bool) {
        matches!(self, PutMutation::Remove)
    }

    fn is_focus(&self) -> (res: bool) {
        matches!(self, PutMutation::Focus)
    }
}

impl NodeMutation for DuplicationMutation {
    open spec fn removes(&self) -> bool {
        *self is Remove
    }

    open spec fn focuses(&self) -> bool {
        *self is Focus
    }

    fn is_remove(&self) -> (res: bool) {
        matches!(self, DuplicationMutation::Remove)
    }

    fn is_focus(&self) -> (res: bool) {
        matches!(self, DuplicationMutation::Focus)
    }
}

/// A function type has two places that can take the focus: `Focus` and
/// `FocusSelf` both ask for it.
impl NodeMutation for FunctionMutation {
    open spec fn removes(&self) -> bool {
        *self is Remove
    }

    open spec fn focuses(&self) -> bool {
        *self is Focus || *self is FocusSelf
    }

    fn is_remove(&self) -> (res: bool) {
        matches!(self, FunctionMutation::Remove)
    }

    fn is_focus(&self) -> (res: bool) {
        matches!(self, FunctionMutation::Focus) || matches!(self, FunctionMutation::FocusSelf)
    }
}

/// Some edit in `ms` removes the node.
pub open spec fn any_removes<M: NodeMutation>(ms: Seq<M>) -> bool {
    exists|i: int| 0 <= i < ms.len() && #[trigger] ms[i].removes()
}

/// Some edit in `ms` asks for the focus.
pub open spec fn any_focuses<M: NodeMutation>(ms: Seq<M>) -> bool {
    exists|i: int| 0 <= i < ms.len() && #[trigger] ms[i].focuses()
}

pub fn contains_remove<M: NodeMutation>(ms: &Vec<M>) -> (res: bool)
    ensures
        res == any_removes(ms@),
{
    let mut i: usize = 0;
    while i < ms.len()
        invariant
            i <= ms.len(),
            forall|k: int| 0 <= k < i ==> !(#[trigger] ms@[k].removes()),
        decreases ms.len() - i,
    {
        if ms[i].is_remove() {
            return true;
        }
        i = i + 1;
    }
    false
}

pub fn contains_focus<M: NodeMutation>(ms: &Vec<M>) -> (res: bool)
    ensures
        res == any_focuses(ms@),
{
    let mut i: usize = 0;
    while i < ms.len()
        invariant
            i <= ms.len(),
            forall|k: int| 0 <= k < i ==> !(#[trigger] ms@[k].focuses()),
        decreases ms.len() - i,
    {
        if ms[i].is_focus() {
            return true;
        }
        i = i + 1;
    }
    false
}

/// The name that an edited name field stands for: an empty text clears it.
pub open spec fn name_from_text(text: String) -> Option<String> {
    if text@.len() == 0 {
        None
    } else {
        Some(text)
    }
}

pub fn name_from(text: &String) -> (res: Option<String>)
    ensures
        res == name_from_text(*text),
{
    if text.as_str().unicode_len() == 0 {
        None
    } else {
        Some(text.clone())
    }
}


/// The node a removal leaves: a hole at the same place, with the given
/// annotation that has taken over the placed part of the removed node's
/// annotation; without a removal, the edited node.
pub open spec fn kept_or_hole<T: Transplant>(kept: Cursor<T>, remove: bool, hole: T) -> Cursor<T> {
    if remove {
        Cursor::Hole(HoleCursor { up: kept.up(), annotation: hole.transplanted(kept.annotation_of()) })
    } else {
        kept
    }
}

/// A lambda after the renamings and erasure toggles of `ms`, in order.
pub open spec fn lambda_edited<T>(c: LambdaCursor<T>, ms: Seq<LambdaMutation>) -> LambdaCursor<T>
    decreases ms.len(),
{
    if ms.len() == 0 {
        c
    } else {
        let prev = lambda_edited(c, ms.drop_last());
        match ms.last() {
            LambdaMutation::Update(name) => LambdaCursor { name: name_from_text(name), ..prev },
            LambdaMutation::ToggleErased => LambdaCursor { erased: !prev.erased, ..prev },
            _ => prev,
        }
    }
}

/// An application after the erasure toggles of `ms`.
pub open spec fn application_edited<T>(c: ApplicationCursor<T>, ms: Seq<ApplicationMutation>) -> ApplicationCursor<T>
    decreases ms.len(),
{
    if ms.len() == 0 {
        c
    } else {
        let prev = application_edited(c, ms.drop_last());
        match ms.last() {
            ApplicationMutation::ToggleErased => ApplicationCursor { erased: !prev.erased, ..prev },
            _ => prev,
        }
    }
}

/// A reference after the renamings of `ms`; the last one wins.
pub open spec fn reference_edited<T>(c: ReferenceCursor<T>, ms: Seq<ReferenceMutation>) -> ReferenceCursor<T>
    decreases ms.len(),
{
    if ms.len() == 0 {
        c
    } else {
        let prev = reference_edited(c, ms.drop_last());
        match ms.last() {
            ReferenceMutation::Update(name) => ReferenceCursor { name, ..prev },
            _ => prev,
        }
    }
}

/// A duplication after the renamings of its binder in `ms`.
pub open spec fn duplication_edited<T>(c: DuplicationCursor<T>, ms: Seq<DuplicationMutation>) -> DuplicationCursor<T>
    decreases ms.len(),
{
    if ms.len() == 0 {
        c
    } else {
        let prev = duplication_edited(c, ms.drop_last());
        match ms.last() {
            DuplicationMutation::Update(name) => DuplicationCursor {
                binder: name_from_text(name),
                ..prev
            },
            _ => prev,
        }
    }
}

/// A function type after the renamings and erasure toggles of `ms`.
pub open spec fn function_edited<T>(c: FunctionCursor<T>, ms: Seq<FunctionMutation>) -> FunctionCursor<T>
    decreases ms.len(),
{
    if ms.len() == 0 {
        c
    } else {
        let prev = function_edited(c, ms.drop_last());
        match ms.last() {
            FunctionMutation::Update(name) => FunctionCursor { binder: name_from_text(name), ..prev },
            FunctionMutation::UpdateSelf(name) => FunctionCursor {
                self_binder: name_from_text(name),
                ..prev
            },
            FunctionMutation::ToggleErased => FunctionCursor { erased: !prev.erased, ..prev },
            _ => prev,
        }
    }
}

/// Which of the two places of a function type the last focus edit of `ms`
/// asks for: `Some(true)` for the self name, `Some(false)` for the node.
pub open spec fn function_focus(ms: Seq<FunctionMutation>) -> Option<bool>
    decreases ms.len(),
{
    if ms.len() == 0 {
        None
    } else {
        match ms.last() {
            FunctionMutation::Focus => Some(false),
            FunctionMutation::FocusSelf => Some(true),
            _ => function_focus(ms.drop_last()),
        }
    }
}

/// Applies the queued edits of a lambda: the renamings and erasure toggles
/// in order, then a removal turns it into a hole annotated with `hole`. The
/// flag says whether an edit asked for the focus.
pub fn apply_lambda_mutations<T: Transplant>(c: LambdaCursor<T>, mutations: &Vec<LambdaMutation>, hole: T) -> (res: (Cursor<T>, bool))
    ensures
        res.0 == kept_or_hole(
            Cursor::Lambda(lambda_edited(c, mutations@)),
            any_removes(mutations@),
            hole,
        ),
        res.1 == any_focuses(mutations@),
{
    let mut c = c;
    let ghost c0 = c;
    let mut i: usize = 0;
    while i < mutations.len()
        invariant
            i <= mutations.len(),
            c == lambda_edited(c0, mutations@.take(i as int)),
        decreases mutations.len() - i,
    {
        proof {
            assert(mutations@.take(i + 1).drop_last() =~= mutations@.take(i as int));
        }
        match &mutations[i] {
            LambdaMutation::Update(name) => {
                c = c.with_name(name_from(name));
            },
            LambdaMutation::ToggleErased => {
                let erased = c.erased();
                *c.erased_mut() = !erased;
            },
            _ => {},
        }
        i = i + 1;
    }
    proof {
        assert(mutations@.take(mutations.len() as int) =~= mutations@);
    }
    let kept = if contains_remove(mutations) {
        remove_node(Cursor::Lambda(c), hole)
    } else {
        Cursor::Lambda(c)
    };
    (kept, contains_focus(mutations))
}

/// Applies the queued edits of an application: the erasure toggles, then a
/// removal.
pub fn apply_application_mutations<T: Transplant>(c: ApplicationCursor<T>, mutations: &Vec<ApplicationMutation>, hole: T) -> (res: (Cursor<T>, bool))
    ensures
        res.0 == kept_or_hole(
            Cursor::Application(application_edited(c, mutations@)),
            any_removes(mutations@),
            hole,
        ),
        res.1 == any_focuses(mutations@),
{
    let mut c = c;
    let ghost c0 = c;
    let mut i: usize = 0;
    while i < mutations.len()
        invariant
            i <= mutations.len(),
            c == application_edited(c0, mutations@.take(i as int)),
        decreases mutations.len() - i,
    {
        proof {
            assert(mutations@.take(i + 1).drop_last() =~= mutations@.take(i as int));
        }
        match &mutations[i] {
            ApplicationMutation::ToggleErased => {
                let erased = c.erased();
                *c.erased_mut() = !erased;
            },
            _ => {},
        }
        i = i + 1;
    }
    proof {
        assert(mutations@.take(mutations.len() as int) =~= mutations@);
    }
    let kept = if contains_remove(mutations) {
        remove_node(Cursor::Application(c), hole)
    } else {
        Cursor::Application(c)
    };
    (kept, contains_focus(mutations))
}

/// Applies the queued edits of a `put`: only a removal changes it.
pub fn apply_put_mutations<T: Transplant>(c: PutCursor<T>, mutations: &Vec<PutMutation>, hole: T) -> (res: (Cursor<T>, bool))
    ensures
        res.0 == kept_or_hole(Cursor::Put(c), any_removes(mutations@), hole),
        res.1 == any_focuses(mutations@),
{
    let kept = if contains_remove(mutations) {
        remove_node(Cursor::Put(c), hole)
    } else {
        Cursor::Put(c)
    };
    (kept, contains_focus(mutations))
}

/// Applies the queued edits of a reference: the renamings, then a removal.
pub fn apply_reference_mutations<T: Transplant>(c: ReferenceCursor<T>, mutations: &Vec<ReferenceMutation>, hole: T) -> (res: (Cursor<T>, bool))
    ensures
        res.0 == kept_or_hole(
            Cursor::Reference(reference_edited(c, mutations@)),
            any_removes(mutations@),
            hole,
        ),
        res.1 == any_focuses(mutations@),
{
    let mut c = c;
    let ghost c0 = c;
    let mut i: usize = 0;
    while i < mutations.len()
        invariant
            i <= mutations.len(),
            c == reference_edited(c0, mutations@.take(i as int)),
        decreases mutations.len() - i,
    {
        proof {
            assert(mutations@.take(i + 1).drop_last() =~= mutations@.take(i as int));
        }
        match &mutations[i] {
            ReferenceMutation::Update(name) => {
                c = c.with_name(name.clone());
            },
            _ => {},
        }
        i = i + 1;
    }
    proof {
        assert(mutations@.take(mutations.len() as int) =~= mutations@);
    }
    let kept = if contains_remove(mutations) {
        remove_node(Cursor::Reference(c), hole)
    } else {
        Cursor::Reference(c)
    };
    (kept, contains_focus(mutations))
}

/// Applies the queued edits of a duplication: the renamings of its binder,
/// then a removal.
pub fn apply_duplication_mutations<T: Transplant>(c: DuplicationCursor<T>, mutations: &Vec<DuplicationMutation>, hole: T) -> (res: (Cursor<T>, bool))
    ensures
        res.0 == kept_or_hole(
            Cursor::Duplication(duplication_edited(c, mutations@)),
            any_removes(mutations@),
            hole,
        ),
        res.1 == any_focuses(mutations@),
{
    let mut c = c;
    let ghost c0 = c;
    let mut i: usize = 0;
    while i < mutations.len()
        invariant
            i <= mutations.len(),
            c == duplication_edited(c0, mutations@.take(i as int)),
        decreases mutations.len() - i,
    {
        proof {
            assert(mutations@.take(i + 1).drop_last() =~= mutations@.take(i as int));
        }
        match &mutations[i] {
            DuplicationMutation::Update(name) => {
                c = c.with_binder(name_from(name));
            },
            _ => {},
        }
        i = i + 1;
    }
    proof {
        assert(mutations@.take(mutations.len() as int) =~= mutations@);
    }
    let kept = if contains_remove(mutations) {
        remove_node(Cursor::Duplication(c), hole)
    } else {
        Cursor::Duplication(c)
    };
    (kept, contains_focus(mutations))
}

/// Applies the queued edits of the universe: only a removal changes it.
pub fn apply_universe_mutations<T: Transplant>(c: UniverseCursor<T>, mutations: &Vec<UniverseMutation>, hole: T) -> (res: (Cursor<T>, bool))
    ensures
        res.0 == kept_or_hole(Cursor::Universe(c), any_removes(mutations@), hole),
        res.1 == any_focuses(mutations@),
{
    let kept = if contains_remove(mutations) {
        remove_node(Cursor::Universe(c), hole)
    } else {
        Cursor::Universe(c)
    };
    (kept, contains_focus(mutations))
}

/// Applies the queued edits of a function type: the renamings of both names
/// and the erasure toggles in order, then a removal. The second result is
/// the place that the last focus edit asks for, if any.
pub fn apply_function_mutations<T: Transplant>(c: FunctionCursor<T>, mutations: &Vec<FunctionMutation>, hole: T) -> (res: (Cursor<T>, Option<bool>))
    ensures
        res.0 == kept_or_hole(
            Cursor::Function(function_edited(c, mutations@)),
            any_removes(mutations@),
            hole,
        ),
        res.1 == function_focus(mutations@),
{
    let mut c = c;
    let ghost c0 = c;
    let mut focus: Option<bool> = None;
    let mut i: usize = 0;
    while i < mutations.len()
        invariant
            i <= mutations.len(),
            c == function_edited(c0, mutations@.take(i as int)),
            focus == function_focus(mutations@.take(i as int)),
        decreases mutations.len() - i,
    {
        proof {
            assert(mutations@.take(i + 1).drop_last() =~= mutations@.take(i as int));
        }
        match &mutations[i] {
            FunctionMutation::Update(name) => {
                c = c.with_name(name_from(name));
            },
            FunctionMutation::UpdateSelf(name) => {
                c = c.with_self_name(name_from(name));
            },
            FunctionMutation::ToggleErased => {
                let erased = c.erased();
                *c.erased_mut() = !erased;
            },
            FunctionMutation::Focus => {
                focus = Some(false);
            },
            FunctionMutation::FocusSelf => {
                focus = Some(true);
            },
            _ => {},
        }
        i = i + 1;
    }
    proof {
        assert(mutations@.take(mutations.len() as int) =~= mutations@);
    }
    let kept = if contains_remove(mutations) {
        remove_node(Cursor::Function(c), hole)
    } else {
        Cursor::Function(c)
    };
    (kept, focus)
}

/// Applies the queued edits of a `wrap`: only a removal changes it.
pub fn apply_wrap_mutations<T: Transplant>(c: WrapCursor<T>, mutations: &Vec<WrapMutation>, hole: T) -> (res: (Cursor<T>, bool))
    ensures
        res.0 == kept_or_hole(Cursor::Wrap(c), any_removes(mutations@), hole),
        res.1 == any_focuses(mutations@),
{
    let kept = if contains_remove(mutations) {
        remove_node(Cursor::Wrap(c), hole)
    } else {
        Cursor::Wrap(c)
    };
    (kept, contains_focus(mutations))
}


/// The part of an annotation that belongs to a place in the term rather than
/// to the node there: when a hole is filled, the new node takes it over from
/// the hole.
pub trait Transplant: Sized {
    /// `self` with the placed part taken over from `from`.
    spec fn transplanted(self, from: Self) -> Self;

    fn transplant(&mut self, from: &Self)
        ensures
            *final(self) == old(self).transplanted(*from),
    ;
}

impl Transplant for () {
    open spec fn transplanted(self, from: Self) -> Self {
        self
    }

    fn transplant(&mut self, from: &Self) {
    }
}

/// Puts a hole in the place of the focused node; the hole takes over the
/// placed part of the node's annotation.
pub fn remove_node<T: Transplant>(kept: Cursor<T>, hole: T) -> (res: Cursor<T>)
    ensures
        res == kept_or_hole(kept, true, hole),
{
    let (up, old) = kept.into_up_and_annotation();
    let mut hole = hole;
    hole.transplant(&old);
    Cursor::Hole(HoleCursor { up, annotation: hole })
}

impl<T> NodeMutation for HoleMutation<T> {
    open spec fn removes(&self) -> bool {
        false
    }

    open spec fn focuses(&self) -> bool {
        *self is Focus
    }

    fn is_remove(&self) -> (res: bool) {
        false
    }

    fn is_focus(&self) -> (res: bool) {
        matches!(self, HoleMutation::Focus)
    }
}

/// One edit of a hole, from the cursor `before` to the cursor `after`:
/// filling puts the term (a literal expanded by one step) at the same place,
/// and its root takes over the placed part of the hole's annotation; going
/// to the parent ascends.
pub open spec fn hole_step<T: Transplant>(before: Cursor<T>, m: HoleMutation<T>, after: Cursor<T>) -> bool {
    match m {
        HoleMutation::Replace(t) => {
            &&& after.up() == before.up()
            &&& after.focus()@ == match t {
                Term::Compressed(c) => lit_step(c@),
                _ => t@,
            }
            &&& exists|p: Cursor<T>|
                placed(p, t, before.up()) && after == p.with_annotation(
                    #[trigger] p.annotation_of().transplanted(before.annotation_of()),
                )
        },
        HoleMutation::ToParent => ascended(before, after),
        HoleMutation::Focus => after == before,
    }
}

/// `r` is where the edits `ms` of a hole, in order, lead from `c`.
pub open spec fn hole_edited<T: Transplant>(c: Cursor<T>, ms: Seq<HoleMutation<T>>, r: Cursor<T>) -> bool
    decreases ms.len(),
{
    if ms.len() == 0 {
        r == c
    } else {
        exists|mid: Cursor<T>| hole_edited(c, ms.drop_last(), mid) && #[trigger] hole_step(mid, ms.last(), r)
    }
}

/// Changing the annotation of the focused node keeps the place and the model
/// of the focused term.
pub proof fn lemma_with_annotation<T>(c: Cursor<T>, a: T)
    ensures
        c.with_annotation(a).up() == c.up(),
        c.with_annotation(a).focus()@ == c.focus()@,
{
}

impl<T> Cursor<T> {
    /// The path above the focus and the annotation of the focused node.
    pub fn into_up_and_annotation(self) -> (res: (Path<T>, T))
        ensures
            res.0 == self.up(),
            res.1 == self.annotation_of(),
    {
        match self {
            Cursor::Lambda(c) => (c.up, c.annotation),
            Cursor::Application(c) => (c.up, c.annotation),
            Cursor::Put(c) => (c.up, c.annotation),
            Cursor::Reference(c) => (c.up, c.annotation),
            Cursor::Duplication(c) => (c.up, c.annotation),
            Cursor::Universe(c) => (c.path, c.annotation),
            Cursor::Function(c) => (c.up, c.annotation),
            Cursor::Wrap(c) => (c.up, c.annotation),
            Cursor::Hole(c) => (c.up, c.annotation),
        }
    }
}

/// Applies the queued edits of a hole in order: filling it with a term (the
/// new node takes over the placed part of the annotation) or moving to the
/// parent. The flag says whether an edit asked for the focus.
pub fn apply_hole_mutations<T: Zero + Clone + Transplant>(c: HoleCursor<T>, mutations: Vec<HoleMutation<T>>) -> (res: (Cursor<T>, bool))
    ensures
        hole_edited(Cursor::Hole(c), mutations@, res.0),
        res.1 == any_focuses(mutations@),
{
    let focus = contains_focus(&mutations);
    let ghost all = mutations@;
    let n = mutations.len();
    let mut cursor = Cursor::Hole(c);
    let mut rest = mutations;
    let mut i: usize = 0;
    while rest.len() > 0
        invariant
            i + rest@.len() == all.len(),
            all.len() == n,
            rest@ == all.skip(i as int),
            hole_edited(Cursor::Hole(c), all.take(i as int), cursor),
        decreases rest@.len(),
    {
        let ghost before = cursor;
        let m = rest.remove(0);
        proof {
            assert(all.take(i + 1).drop_last() =~= all.take(i as int));
            assert(all.take(i + 1).last() == all[i as int]);
            assert(all.skip(i as int)[0] == all[i as int]);
            assert(rest@ =~= all.skip(i + 1));
        }
        match m {
            HoleMutation::Replace(term) => {
                let (up, old) = cursor.into_up_and_annotation();
                let mut next = Cursor::from_term_and_path(term, up);
                let ghost placed_cursor = next;
                next.annotation_mut().transplant(&old);
                proof {
                    lemma_with_annotation(placed_cursor, next.annotation_of());
                    assert(next == placed_cursor.with_annotation(
                        placed_cursor.annotation_of().transplanted(before.annotation_of()),
                    ));
                }
                cursor = next;
            },
            HoleMutation::ToParent => {
                cursor = cursor.ascend();
            },
            HoleMutation::Focus => {},
        }
        proof {
            assert(hole_step(before, all.take(i + 1).last(), cursor));
        }
        i = i + 1;
    }
    proof {
        assert(all.take(all.len() as int) =~= all);
    }
    (cursor, focus)
}


impl NodeMutation for DefMutation {
    open spec fn removes(&self) -> bool {
        *self is Remove
    }

    open spec fn focuses(&self) -> bool {
        *self is Focus
    }

    fn is_remove(&self) -> (res: bool) {
        matches!(self, DefMutation::Remove)
    }

    fn is_focus(&self) -> (res: bool) {
        matches!(self, DefMutation::Focus)
    }
}

/// The binder of a definition after the renamings of `ms`.
pub open spec fn def_binder_edited(binder: Option<String>, ms: Seq<DefMutation>) -> Option<String>
    decreases ms.len(),
{
    if ms.len() == 0 {
        binder
    } else {
        match ms.last() {
            DefMutation::Update(name) => name_from_text(name),
            _ => def_binder_edited(binder, ms.drop_last()),
        }
    }
}

/// The queued edits of a definition node: its binder after the renamings,
/// whether it is removed, and whether it asks for the focus.
pub fn apply_def_mutations(binder: Option<String>, mutations: &Vec<DefMutation>) -> (res: (
    Option<String>,
    bool,
    bool,
))
    ensures
        res.0 == def_binder_edited(binder, mutations@),
        res.1 == any_removes(mutations@),
        res.2 == any_focuses(mutations@),
{
    let mut binder = binder;
    let ghost b0 = binder;
    let mut i: usize = 0;
    while i < mutations.len()
        invariant
            i <= mutations.len(),
            binder == def_binder_edited(b0, mutations@.take(i as int)),
        decreases mutations.len() - i,
    {
        proof {
            assert(mutations@.take(i + 1).drop_last() =~= mutations@.take(i as int));
        }
        match &mutations[i] {
            DefMutation::Update(name) => {
                binder = name_from(name);
            },
            _ => {},
        }
        i = i + 1;
    }
    proof {
        assert(mutations@.take(mutations.len() as int) =~= mutations@);
    }
    (binder, contains_remove(mutations), contains_focus(mutations))
}

/// What a hole turns into when a letter is typed into it: a term of that
/// kind with holes for its parts, or a new definition node.
#[derive(Debug, PartialEq)]
pub enum HoleTemplate {
    Term(Term<()>),
    Definition,
}

pub open spec fn hole_tm() -> Box<Tm> {
    Box::new(Tm::Hole)
}

/// The term that a letter typed into a hole names: `r` a reference, `l` and
/// `L` a lambda (`L` erased), `a` and `A` an application, `u` the universe,
/// `w` a wrap, `p` a put, `d` a duplication, `f` and `F` a function type.
pub open spec fn template_tm(c: char) -> Option<Tm> {
    if c == 'r' {
        Some(Tm::Ref(Seq::empty()))
    } else if c == 'l' || c == 'L' {
        Some(Tm::Lam { erased: c == 'L', name: None, body: hole_tm() })
    } else if c == 'a' || c == 'A' {
        Some(Tm::App { erased: c == 'A', function: hole_tm(), argument: hole_tm() })
    } else if c == 'u' {
        Some(Tm::Univ)
    } else if c == 'w' {
        Some(Tm::Wrap(hole_tm()))
    } else if c == 'p' {
        Some(Tm::Put(hole_tm()))
    } else if c == 'd' {
        Some(Tm::Dup { binder: None, expression: hole_tm(), body: hole_tm() })
    } else if c == 'f' || c == 'F' {
        Some(
            Tm::Fun {
                erased: c == 'F',
                name: None,
                self_name: None,
                argument_type: hole_tm(),
                return_type: hole_tm(),
            },
        )
    } else {
        None
    }
}

fn hole() -> (res: Box<Term<()>>)
    ensures
        res@ == Tm::Hole,
{
    Box::new(Term::Hole(()))
}

/// The template that the first letter typed into a hole names; `D` names a
/// new definition node, and other letters name nothing.
pub fn hole_template(letter: char) -> (res: Option<HoleTemplate>)
    ensures
        match res {
            Some(HoleTemplate::Term(t)) => template_tm(letter) == Some(t@),
            Some(HoleTemplate::Definition) => letter == 'D',
            None => template_tm(letter) is None && letter != 'D',
        },
{
    let t = if letter == 'r' {
        Term::Reference(String::new(), ())
    } else if letter == 'l' || letter == 'L' {
        Term::Lambda { erased: letter == 'L', name: None, body: hole(), annotation: () }
    } else if letter == 'a' || letter == 'A' {
        Term::Application { erased: letter == 'A', function: hole(), argument: hole(), annotation: () }
    } else if letter == 'u' {
        Term::Universe(())
    } else if letter == 'w' {
        Term::Wrap(hole(), ())
    } else if letter == 'p' {
        Term::Put(hole(), ())
    } else if letter == 'd' {
        Term::Duplication { binder: None, expression: hole(), body: hole(), annotation: () }
    } else if letter == 'f' || letter == 'F' {
        Term::Function {
            erased: letter == 'F',
            name: None,
            self_name: None,
            argument_type: hole(),
            return_type: hole(),
            annotation: (),
        }
    } else if letter == 'D' {
        return Some(HoleTemplate::Definition);
    } else {
        return None;
    };
    Some(HoleTemplate::Term(t))
}


} // verus!
