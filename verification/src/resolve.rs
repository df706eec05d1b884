//! From the zipper to the analyses: the focused term as an analysis term,
//! with each reference to a binder in scope turned into its index.
use vstd::prelude::*;

use crate::literal::{blank, Lit, Zero};
use crate::term::{anns_all, clone_name, name_view, AnalysisTerm, Tm};
use crate::zipper::{copy_name, is_unscoped, parent_of, step_binder_vec};
use crate::zipper::{
    context_names, depth, lemma_parent_depth, lemma_skip_depth, lit_step, parent,
    rank_bound, scope_names, skip_unscoped, step_binders, term_binders, unscoped, lemma_lit_step_rank,
    Cursor, Path, Term, term_anns_all, fill,
};

verus! {

/// A step of a path as name resolution sees it: whether its child is out of
/// scope of the node's binders, and those binders.
pub struct ZStep {
    pub unscoped: bool,
    pub binders: Seq<Option<Seq<char>>>,
}

pub open spec fn names_of(s: Seq<Option<String>>) -> Seq<Option<Seq<char>>> {
    Seq::new(s.len(), |i: int| name_view(s[i]))
}

pub open spec fn zstep<T>(p: Path<T>) -> ZStep {
    ZStep { unscoped: unscoped(p), binders: names_of(step_binders(p)) }
}

/// The steps of a path, innermost first.
pub open spec fn zsteps<T>(p: Path<T>) -> Seq<ZStep>
    decreases depth(p),
{
    if p is Top {
        Seq::empty()
    } else {
        proof {
            lemma_parent_depth(p);
        }
        seq![zstep(p)] + zsteps(parent(p))
    }
}

/// `skip_unscoped` on steps: drops the leading unscoped steps and returns
/// the rest with the last step dropped (`last` if none was).
pub open spec fn zskip(steps: Seq<ZStep>, last: ZStep) -> (Seq<ZStep>, ZStep)
    decreases steps.len(),
{
    if steps.len() > 0 && steps[0].unscoped {
        zskip(steps.drop_first(), steps[0])
    } else {
        (steps, last)
    }
}

pub proof fn lemma_zskip_len(steps: Seq<ZStep>, last: ZStep)
    ensures
        zskip(steps, last).0.len() <= steps.len(),
        zskip(steps, last).0.len() > 0 ==> !zskip(steps, last).0[0].unscoped,
        steps.len() > 0 && steps[0].unscoped ==> zskip(steps, last).0.len() < steps.len(),
    decreases steps.len(),
{
    if steps.len() > 0 && steps[0].unscoped {
        lemma_zskip_len(steps.drop_first(), steps[0]);
    }
}

/// `scope_names` on steps.
pub open spec fn zscope(steps: Seq<ZStep>, b: Seq<Option<Seq<char>>>) -> Seq<Option<Seq<char>>>
    decreases steps.len(),
{
    if steps.len() == 1 && steps[0].unscoped {
        Seq::empty()
    } else if steps.len() == 0 {
        b
    } else {
        let (q, last) = zskip(steps, steps[0]);
        proof {
            lemma_zskip_len(steps, steps[0]);
        }
        if q.len() == 0 {
            b + last.binders
        } else {
            b + zscope(q.drop_first(), q[0].binders)
        }
    }
}

proof fn lemma_names_of_concat(a: Seq<Option<String>>, b: Seq<Option<String>>)
    ensures
        names_of(a + b) == names_of(a) + names_of(b),
{
    assert(names_of(a + b) =~= names_of(a) + names_of(b));
}

proof fn lemma_zskip_view<T>(p: Path<T>, last: Path<T>)
    ensures
        zskip(zsteps(p), zstep(last)) == (zsteps(skip_unscoped(p, last).0), zstep(
            skip_unscoped(p, last).1,
        )),
    decreases depth(p),
{
    if unscoped(p) {
        lemma_parent_depth(p);
        lemma_zskip_view(parent(p), p);
        assert(zsteps(p).drop_first() =~= zsteps(parent(p)));
    }
}

/// Name resolution on steps sees the same names as on the path.
pub proof fn lemma_scope_view<T>(p: Path<T>, b: Seq<Option<String>>)
    ensures
        names_of(scope_names(p, b)) == zscope(zsteps(p), names_of(b)),
    decreases depth(p),
{
    if p is Top {
    } else {
        lemma_parent_depth(p);
        assert(zsteps(p) == seq![zstep(p)] + zsteps(parent(p)));
        assert(zsteps(p)[0] == zstep(p));
        if parent(p) is Top {
            assert(zsteps(parent(p)) =~= Seq::<ZStep>::empty());
            assert(zsteps(p).len() == 1);
        } else {
            assert(zsteps(parent(p)).len() > 0);
            assert(zsteps(p).len() > 1);
        }
        if unscoped(p) && parent(p) is Top {
            assert(names_of(Seq::<Option<String>>::empty()) =~= Seq::empty());
            assert(scope_names(p, b) == Seq::<Option<String>>::empty());
            assert(zscope(zsteps(p), names_of(b)) == Seq::<Option<Seq<char>>>::empty());
        } else {
            lemma_skip_depth(p, p);
            lemma_zskip_view(p, p);
            let (q, last) = skip_unscoped(p, p);
            lemma_parent_depth(q);
            if q is Top {
                assert(zsteps(q).len() == 0);
                lemma_names_of_concat(b, step_binders(last));
                assert(scope_names(q, step_binders(last)) == step_binders(last));
                assert(scope_names(p, b) == b + step_binders(last));
                assert(zscope(zsteps(p), names_of(b)) == names_of(b) + names_of(step_binders(last)));
            } else {
                lemma_scope_view(parent(q), step_binders(q));
                lemma_names_of_concat(b, scope_names(parent(q), step_binders(q)));
                assert(zsteps(q) == seq![zstep(q)] + zsteps(parent(q)));
                assert(zsteps(q).drop_first() =~= zsteps(parent(q)));
                assert(zsteps(q)[0] == zstep(q));
                assert(scope_names(p, b) == b + scope_names(parent(q), step_binders(q)));
                assert(zscope(zsteps(p), names_of(b)) == names_of(b) + zscope(
                    zsteps(parent(q)),
                    names_of(step_binders(q)),
                ));
            }
        }
    }
}

/// The position of the first `Some(name)` in `ctx` at or after `from`.
pub open spec fn find_name(ctx: Seq<Option<Seq<char>>>, name: Seq<char>, from: int) -> Option<int>
    decreases ctx.len() - from,
{
    if from < 0 || from >= ctx.len() {
        None
    } else if ctx[from] == Some(name) {
        Some(from)
    } else {
        find_name(ctx, name, from + 1)
    }
}

/// A reference seen from a position with the given steps above it: the
/// index of the innermost binder of its name in scope, or the reference.
pub open spec fn resolve_name(steps: Seq<ZStep>, name: Seq<char>) -> Tm {
    let ctx = if steps.len() == 0 {
        Seq::empty()
    } else {
        zscope(steps, Seq::empty())
    };
    match find_name(ctx, name, 0) {
        Some(i) => Tm::Var(i),
        None => Tm::Ref(name),
    }
}

pub open spec fn plain_step() -> ZStep {
    ZStep { unscoped: false, binders: Seq::empty() }
}

/// The analysis term of the term `t` seen from a position with the given
/// steps above it; literals are expanded on the way.
pub open spec fn resolve_tm(steps: Seq<ZStep>, t: Tm) -> Tm
    decreases rank_bound(t), t,
{
    match t {
        Tm::Lam { erased, name, body } => Tm::Lam {
            erased,
            name,
            body: Box::new(
                resolve_tm(seq![ZStep { unscoped: false, binders: seq![name] }] + steps, *body),
            ),
        },
        Tm::App { erased, function, argument } => Tm::App {
            erased,
            function: Box::new(resolve_tm(seq![plain_step()] + steps, *function)),
            argument: Box::new(resolve_tm(seq![plain_step()] + steps, *argument)),
        },
        Tm::Put(e) => Tm::Put(Box::new(resolve_tm(seq![plain_step()] + steps, *e))),
        Tm::Dup { binder, expression, body } => Tm::Dup {
            binder,
            expression: Box::new(
                resolve_tm(seq![ZStep { unscoped: true, binders: seq![binder] }] + steps, *expression),
            ),
            body: Box::new(
                resolve_tm(seq![ZStep { unscoped: false, binders: seq![binder] }] + steps, *body),
            ),
        },
        Tm::Ref(name) => resolve_name(steps, name),
        Tm::Fun { erased, name, self_name, argument_type, return_type } => Tm::Fun {
            erased,
            name,
            self_name,
            argument_type: Box::new(
                resolve_tm(
                    seq![ZStep { unscoped: true, binders: seq![name, self_name] }] + steps,
                    *argument_type,
                ),
            ),
            return_type: Box::new(
                resolve_tm(
                    seq![ZStep { unscoped: false, binders: seq![name, self_name] }] + steps,
                    *return_type,
                ),
            ),
        },
        Tm::Wrap(e) => Tm::Wrap(Box::new(resolve_tm(seq![plain_step()] + steps, *e))),
        Tm::Lit(l) => {
            proof {
                lemma_lit_step_rank(l);
            }
            resolve_tm(steps, lit_step(l))
        },
        _ => t,
    }
}


/// A step of the path above the term being converted.
struct ScopeStep {
    unscoped: bool,
    binders: Vec<Option<String>>,
}

impl View for ScopeStep {
    type V = ZStep;

    closed spec fn view(&self) -> ZStep {
        ZStep { unscoped: self.unscoped, binders: names_of(self.binders@) }
    }
}

spec fn stack_view(stack: Seq<ScopeStep>) -> Seq<ZStep> {
    Seq::new(stack.len(), |i: int| stack[i]@)
}

fn copy_names(v: &Vec<Option<String>>) -> (res: Vec<Option<String>>)
    ensures
        res@ == v@,
{
    let mut out: Vec<Option<String>> = Vec::new();
    let mut i: usize = 0;
    while i < v.len()
        invariant
            i <= v@.len(),
            out@ == v@.subrange(0, i as int),
        decreases v@.len() - i,
    {
        out.push(copy_name(&v[i]));
        proof {
            assert(v@.subrange(0, i + 1) =~= v@.subrange(0, i as int).push(v@[i as int]));
        }
        i = i + 1;
    }
    assert(v@.subrange(0, v@.len() as int) =~= v@);
    out
}

/// The names in scope below the given steps, as `zscope` lists them.
fn scope_of(steps: &Vec<ScopeStep>) -> (res: Vec<Option<String>>)
    ensures
        names_of(res@) == zscope(stack_view(steps@), Seq::empty()),
{
    let ghost all = stack_view(steps@);
    let n = steps.len();
    let mut out: Vec<Option<String>> = Vec::new();
    let mut pos: usize = 0;
    let mut b: Vec<Option<String>> = Vec::new();
    assert(all.skip(0) =~= all);
    assert(names_of(Seq::<Option<String>>::empty()) =~= Seq::empty());
    loop
        invariant
            pos <= n,
            n == steps@.len(),
            all == stack_view(steps@),
            names_of(out@) + zscope(all.skip(pos as int), names_of(b@)) == zscope(all, Seq::empty()),
        decreases n - pos,
    {
        let ghost view = all.skip(pos as int);
        if n - pos == 1 && steps[pos].unscoped {
            proof {
                assert(view.len() == 1 && view[0] == all[pos as int]);
                assert(names_of(out@) + Seq::empty() =~= names_of(out@));
            }
            return out;
        }
        if n - pos == 0 {
            proof {
                assert(view.len() == 0);
                lemma_names_of_concat(out@, b@);
            }
            out.append(&mut b);
            return out;
        }
        let mut q: usize = pos;
        let mut last: usize = pos;
        while q < n && steps[q].unscoped
            invariant
                pos <= q <= n,
                pos <= last < n,
                n == steps@.len(),
                all == stack_view(steps@),
                zskip(all.skip(pos as int), all[pos as int]) == zskip(all.skip(q as int), all[last as int]),
            decreases n - q,
        {
            proof {
                assert(all.skip(q as int).drop_first() =~= all.skip(q + 1));
                assert(all.skip(q as int)[0] == all[q as int]);
            }
            last = q;
            q = q + 1;
        }
        proof {
            assert(view[0] == all[pos as int]);
            if q < n {
                assert(all.skip(q as int)[0] == all[q as int]);
            } else {
                assert(all.skip(q as int).len() == 0);
            }
            assert(zskip(all.skip(q as int), all[last as int]) == (all.skip(q as int), all[last as int]));
            lemma_names_of_concat(out@, b@);
        }
        let ghost before = out@;
        let ghost old_b = b@;
        out.append(&mut b);
        if q == n {
            let mut extra = copy_names(&steps[last].binders);
            proof {
                lemma_names_of_concat(out@, extra@);
                assert(names_of(before) + (names_of(old_b) + all[last as int].binders) =~= names_of(
                    out@,
                ) + names_of(extra@));
                assert(all.skip(n as int).len() == 0);
                assert(names_of(out@.add(extra@)) =~= names_of(out@) + names_of(extra@));
            }
            out.append(&mut extra);
            return out;
        }
        b = copy_names(&steps[q].binders);
        proof {
            assert(all.skip(q as int).drop_first() =~= all.skip(q + 1));
            assert(all.skip(q as int)[0].binders == names_of(b@));
            assert(names_of(before) + (names_of(old_b) + zscope(all.skip(q + 1), names_of(b@)))
                =~= names_of(out@) + zscope(all.skip(q + 1), names_of(b@)));
        }
        pos = q + 1;
    }
}


/// The index of the innermost binder in scope named `name`, if any.
fn resolve_reference(name: &String, stack: &Vec<ScopeStep>) -> (res: Option<usize>)
    ensures
        match resolve_name(stack_view(stack@), name@) {
            Tm::Var(i) => res is Some && res->0 as int == i,
            _ => res is None,
        },
{
    let ctx = if stack.len() == 0 {
        Vec::new()
    } else {
        scope_of(stack)
    };
    let ghost names = names_of(ctx@);
    proof {
        if stack.len() == 0 {
            assert(names =~= Seq::empty());
        }
        assert(stack_view(stack@).len() == stack@.len());
        assert(names == (if stack_view(stack@).len() == 0 {
            Seq::empty()
        } else {
            zscope(stack_view(stack@), Seq::empty())
        }));
    }
    let mut i: usize = 0;
    while i < ctx.len()
        invariant
            i <= ctx@.len(),
            names == names_of(ctx@),
            names == (if stack_view(stack@).len() == 0 {
                Seq::empty()
            } else {
                zscope(stack_view(stack@), Seq::empty())
            }),
            find_name(names, name@, 0) == find_name(names, name@, i as int),
        decreases ctx@.len() - i,
    {
        let found = match &ctx[i] {
            Some(n) => *n == *name,
            None => false,
        };
        if found {
            proof {
                assert(names[i as int] == Some(name@));
                assert(find_name(names, name@, i as int) == Some(i as int));
                assert(resolve_name(stack_view(stack@), name@) == Tm::Var(i as int));
            }
            return Some(i);
        }
        proof {
            assert(names[i as int] != Some(name@));
        }
        i = i + 1;
    }
    None
}

/// The analysis term `r` carries the annotations of the editor term `t`:
/// each node has the annotation of the node it comes from, wrapped in `Some`,
/// and keeps its names; a reference keeps its annotation whether it became a
/// variable or stayed a reference. The nodes of an expanded literal carry
/// `Some` of the annotation that generated nodes get.
pub open spec fn lifted<T: Zero + Clone>(t: Term<T>, r: AnalysisTerm<Option<T>>) -> bool
    decreases t,
{
    match t {
        Term::Lambda { name, body, annotation, .. } => match r {
            AnalysisTerm::Lambda { name: n2, body: b2, annotation: a2, .. } => n2 == name && a2
                == Some(annotation) && lifted(*body, *b2),
            _ => false,
        },
        Term::Application { function, argument, annotation, .. } => match r {
            AnalysisTerm::Application { function: f2, argument: x2, annotation: a2, .. } => a2
                == Some(annotation) && lifted(*function, *f2) && lifted(*argument, *x2),
            _ => false,
        },
        Term::Put(e, a) => match r {
            AnalysisTerm::Put(e2, a2) => a2 == Some(a) && lifted(*e, *e2),
            _ => false,
        },
        Term::Duplication { binder, expression, body, annotation } => match r {
            AnalysisTerm::Duplication { binder: n2, expression: x2, body: b2, annotation: a2 } =>
                n2 == binder && a2 == Some(annotation) && lifted(*expression, *x2) && lifted(
                *body,
                *b2,
            ),
            _ => false,
        },
        Term::Reference(name, a) => match r {
            AnalysisTerm::Variable(_, a2) => a2 == Some(a),
            AnalysisTerm::Reference(n2, a2) => n2 == name && a2 == Some(a),
            _ => false,
        },
        Term::Universe(a) => r == AnalysisTerm::Universe(Some(a)),
        Term::Function { name, self_name, argument_type, return_type, annotation, .. } => match r {
            AnalysisTerm::Function {
                name: n2,
                self_name: s2,
                argument_type: x2,
                return_type: y2,
                annotation: a2,
                ..
            } => n2 == name && s2 == self_name && a2 == Some(annotation) && lifted(
                *argument_type,
                *x2,
            ) && lifted(*return_type, *y2),
            _ => false,
        },
        Term::Wrap(e, a) => match r {
            AnalysisTerm::Wrap(e2, a2) => a2 == Some(a) && lifted(*e, *e2),
            _ => false,
        },
        Term::Hole(a) => r == AnalysisTerm::Hole(Some(a)),
        Term::Compressed(_) => forall|z: T| blank(z) ==> #[trigger] anns_all(r, Some(z)),
    }
}

/// An analysis term that carries the annotations of an editor term whose
/// annotations are all `z` carries only `Some(z)`.
proof fn lemma_lifted_anns<T: Zero + Clone>(t: Term<T>, r: AnalysisTerm<Option<T>>, z: T)
    requires
        lifted(t, r),
        blank(z),
        term_anns_all(t, z),
    ensures
        anns_all(r, Some(z)),
    decreases t,
{
    match t {
        Term::Lambda { body, .. } => match r {
            AnalysisTerm::Lambda { body: b2, .. } => lemma_lifted_anns(*body, *b2, z),
            _ => {},
        },
        Term::Application { function, argument, .. } => match r {
            AnalysisTerm::Application { function: f2, argument: x2, .. } => {
                lemma_lifted_anns(*function, *f2, z);
                lemma_lifted_anns(*argument, *x2, z);
            },
            _ => {},
        },
        Term::Put(e, _) => match r {
            AnalysisTerm::Put(e2, _) => lemma_lifted_anns(*e, *e2, z),
            _ => {},
        },
        Term::Duplication { expression, body, .. } => match r {
            AnalysisTerm::Duplication { expression: x2, body: b2, .. } => {
                lemma_lifted_anns(*expression, *x2, z);
                lemma_lifted_anns(*body, *b2, z);
            },
            _ => {},
        },
        Term::Function { argument_type, return_type, .. } => match r {
            AnalysisTerm::Function { argument_type: x2, return_type: y2, .. } => {
                lemma_lifted_anns(*argument_type, *x2, z);
                lemma_lifted_anns(*return_type, *y2, z);
            },
            _ => {},
        },
        Term::Wrap(e, _) => match r {
            AnalysisTerm::Wrap(e2, _) => lemma_lifted_anns(*e, *e2, z),
            _ => {},
        },
        _ => {},
    }
}

/// The analysis term of `term` seen below the steps of `stack`; literals are
/// expanded on the way.
#[verifier::rlimit(60)]
#[verifier::spinoff_prover]
fn convert<T: Zero + Clone>(term: Term<T>, stack: &mut Vec<ScopeStep>) -> (res: AnalysisTerm<Option<T>>)
    ensures
        res@ == resolve_tm(stack_view(old(stack)@), term@),
        lifted(term, res),
        final(stack)@ == old(stack)@,
    decreases rank_bound(term@), term,
{
    let ghost steps = stack_view(stack@);
    match term {
        Term::Lambda { erased, name, body, annotation } => {
            let mut binders: Vec<Option<String>> = Vec::new();
            binders.push(clone_name(&name));
            proof {
                assert(names_of(binders@) =~= seq![name_view(name)]);
            }
            let ghost before = stack@;
            stack.insert(0, ScopeStep { unscoped: false, binders });
            proof {
                assert(stack_view(stack@) =~= seq![ZStep { unscoped: false, binders: seq![name_view(name)] }] + steps);
            }
            let body = convert(*body, stack);
            stack.remove(0);
            proof {
                assert(stack@ =~= before);
            }
            AnalysisTerm::Lambda { erased, name, body: Box::new(body), annotation: Some(annotation) }
        },
        Term::Application { erased, function, argument, annotation } => {
            let ghost before = stack@;
            stack.insert(0, ScopeStep { unscoped: false, binders: Vec::new() });
            proof {
                assert(names_of(Seq::<Option<String>>::empty()) =~= Seq::empty());
                assert(stack_view(stack@) =~= seq![plain_step()] + steps);
            }
            let argument = convert(*argument, stack);
            let function = convert(*function, stack);
            stack.remove(0);
            proof {
                assert(stack@ =~= before);
            }
            AnalysisTerm::Application {
                erased,
                function: Box::new(function),
                argument: Box::new(argument),
                annotation: Some(annotation),
            }
        },
        Term::Put(term, annotation) => {
            let ghost before = stack@;
            stack.insert(0, ScopeStep { unscoped: false, binders: Vec::new() });
            proof {
                assert(names_of(Seq::<Option<String>>::empty()) =~= Seq::empty());
                assert(stack_view(stack@) =~= seq![plain_step()] + steps);
            }
            let term = convert(*term, stack);
            stack.remove(0);
            proof {
                assert(stack@ =~= before);
            }
            AnalysisTerm::Put(Box::new(term), Some(annotation))
        },
        Term::Duplication { binder, expression, body, annotation } => {
            let ghost before = stack@;
            let mut binders: Vec<Option<String>> = Vec::new();
            binders.push(clone_name(&binder));
            proof {
                assert(names_of(binders@) =~= seq![name_view(binder)]);
            }
            stack.insert(0, ScopeStep { unscoped: true, binders });
            proof {
                assert(stack_view(stack@) =~= seq![ZStep { unscoped: true, binders: seq![name_view(binder)] }] + steps);
            }
            let expression = convert(*expression, stack);
            stack.remove(0);
            proof {
                assert(stack@ =~= before);
            }
            let mut binders: Vec<Option<String>> = Vec::new();
            binders.push(clone_name(&binder));
            proof {
                assert(names_of(binders@) =~= seq![name_view(binder)]);
            }
            stack.insert(0, ScopeStep { unscoped: false, binders });
            proof {
                assert(stack_view(stack@) =~= seq![ZStep { unscoped: false, binders: seq![name_view(binder)] }] + steps);
            }
            let body = convert(*body, stack);
            stack.remove(0);
            proof {
                assert(stack@ =~= before);
            }
            AnalysisTerm::Duplication {
                binder,
                expression: Box::new(expression),
                body: Box::new(body),
                annotation: Some(annotation),
            }
        },
        Term::Reference(name, annotation) => match resolve_reference(&name, stack) {
            Some(i) => AnalysisTerm::Variable(i, Some(annotation)),
            None => AnalysisTerm::Reference(name, Some(annotation)),
        },
        Term::Universe(annotation) => AnalysisTerm::Universe(Some(annotation)),
        Term::Function { erased, name, self_name, argument_type, return_type, annotation } => {
            let ghost before = stack@;
            let ghost names = seq![name_view(name), name_view(self_name)];
            let mut binders: Vec<Option<String>> = Vec::new();
            binders.push(clone_name(&name));
            binders.push(clone_name(&self_name));
            proof {
                assert(names_of(binders@) =~= names);
            }
            stack.insert(0, ScopeStep { unscoped: true, binders });
            proof {
                assert(stack_view(stack@) =~= seq![ZStep { unscoped: true, binders: names }] + steps);
            }
            let argument_type = convert(*argument_type, stack);
            stack.remove(0);
            proof {
                assert(stack@ =~= before);
            }
            let mut binders: Vec<Option<String>> = Vec::new();
            binders.push(clone_name(&name));
            binders.push(clone_name(&self_name));
            proof {
                assert(names_of(binders@) =~= names);
            }
            stack.insert(0, ScopeStep { unscoped: false, binders });
            proof {
                assert(stack_view(stack@) =~= seq![ZStep { unscoped: false, binders: names }] + steps);
            }
            let return_type = convert(*return_type, stack);
            stack.remove(0);
            proof {
                assert(stack@ =~= before);
            }
            AnalysisTerm::Function {
                erased,
                name,
                self_name,
                argument_type: Box::new(argument_type),
                return_type: Box::new(return_type),
                annotation: Some(annotation),
            }
        },
        Term::Wrap(term, annotation) => {
            let ghost before = stack@;
            stack.insert(0, ScopeStep { unscoped: false, binders: Vec::new() });
            proof {
                assert(names_of(Seq::<Option<String>>::empty()) =~= Seq::empty());
                assert(stack_view(stack@) =~= seq![plain_step()] + steps);
            }
            let term = convert(*term, stack);
            stack.remove(0);
            proof {
                assert(stack@ =~= before);
            }
            AnalysisTerm::Wrap(Box::new(term), Some(annotation))
        },
        Term::Hole(annotation) => AnalysisTerm::Hole(Some(annotation)),
        Term::Compressed(data) => {
            let expanded = data.expand();
            proof {
                lemma_lit_step_rank(data@);
            }
            let res = convert(expanded, stack);
            proof {
                assert forall|z: T| blank(z) implies #[trigger] anns_all(res, Some(z)) by {
                    assert(term_anns_all(expanded, z));
                    lemma_lifted_anns(expanded, res, z);
                }
            }
            res
        },
    }
}

/// The steps of a path, innermost first.
fn path_steps<T>(p: &Path<T>) -> (res: Vec<ScopeStep>)
    ensures
        stack_view(res@) == zsteps(*p),
{
    let mut stack: Vec<ScopeStep> = Vec::new();
    let mut q = p;
    while !q.is_top()
        invariant
            stack_view(stack@) + zsteps(*q) == zsteps(*p),
        decreases depth(*q),
    {
        proof {
            lemma_parent_depth(*q);
        }
        let ghost before = stack@;
        stack.push(ScopeStep { unscoped: is_unscoped(q), binders: step_binder_vec(q) });
        proof {
            assert(stack_view(stack@) =~= stack_view(before).push(zstep(*q)));
            assert(zsteps(*q) == seq![zstep(*q)] + zsteps(parent(*q)));
            assert(stack_view(stack@) + zsteps(parent(*q)) =~= stack_view(before) + zsteps(*q));
        }
        q = parent_of(q);
    }
    proof {
        assert(zsteps(*q) =~= Seq::<ZStep>::empty());
        assert(stack_view(stack@) + Seq::<ZStep>::empty() =~= stack_view(stack@));
    }
    stack
}

impl<T: Zero + Clone> Cursor<T> {
    /// The focused term as an analysis term: each reference to a name in
    /// scope becomes the index of that name in the cursor's context, the
    /// annotations are wrapped in `Some`, and literals are expanded.
    pub fn into_analysis(self) -> (res: AnalysisTerm<Option<T>>)
        ensures
            res@ == resolve_tm(zsteps(self.up()), self.focus()@),
            lifted(self.focus(), res),
    {
        let mut stack = path_steps(self.path());
        convert(self.into_focus(), &mut stack)
    }
}

/// A reference in focus resolves to the position of the first binder of its
/// name in the cursor's context, or stays a reference.
pub proof fn lemma_reference_resolves_in_context<T>(c: Cursor<T>, name: String, annotation: T)
    requires
        c.focus() == Term::Reference(name, annotation),
    ensures
        resolve_tm(zsteps(c.up()), c.focus()@) == match find_name(
            names_of(context_names(c)),
            name@,
            0,
        ) {
            Some(i) => Tm::Var(i),
            None => Tm::Ref(name@),
        },
{
    assert(term_binders(c.focus()) =~= Seq::<Option<String>>::empty());
    assert(names_of(Seq::<Option<String>>::empty()) =~= Seq::empty());
    if c.up() is Top {
        assert(zsteps(c.up()) =~= Seq::<ZStep>::empty());
        assert(names_of(context_names(c)) =~= Seq::empty());
    } else {
        lemma_scope_view(c.up(), Seq::empty());
        lemma_parent_depth(c.up());
        assert(zsteps(c.up()).len() > 0);
    }
}

/// Conversion agrees with the cursor's context at every position: the part of
/// a converted parent that stands for one of its children is that child
/// converted below the path that leads into it. With the resolution of a
/// reference in focus (`lemma_reference_resolves_in_context`), every
/// reference inside a term is resolved by the context of the position it
/// stands at.
pub proof fn lemma_resolve_child<T>(q: Path<T>, t: Term<T>)
    ensures
        ({
            let parent_res = resolve_tm(zsteps(parent(q)), fill(q, t)@);
            let child_res = resolve_tm(zsteps(q), t@);
            &&& q is Lambda ==> (parent_res matches Tm::Lam { body, .. } && *body == child_res)
            &&& q is ApplicationFunction ==> (parent_res matches Tm::App { function, .. }
                && *function == child_res)
            &&& q is ApplicationArgument ==> (parent_res matches Tm::App { argument, .. }
                && *argument == child_res)
            &&& q is Put ==> (parent_res matches Tm::Put(e) && *e == child_res)
            &&& q is DuplicationExpression ==> (parent_res matches Tm::Dup { expression, .. }
                && *expression == child_res)
            &&& q is DuplicationBody ==> (parent_res matches Tm::Dup { body, .. } && *body
                == child_res)
            &&& q is FunctionArgumentType ==> (parent_res matches Tm::Fun { argument_type, .. }
                && *argument_type == child_res)
            &&& q is FunctionReturnType ==> (parent_res matches Tm::Fun { return_type, .. }
                && *return_type == child_res)
            &&& q is Wrap ==> (parent_res matches Tm::Wrap(e) && *e == child_res)
        }),
{
    if !(q is Top) {
        lemma_parent_depth(q);
        assert(zsteps(q) == seq![zstep(q)] + zsteps(parent(q)));
        match q {
            Path::Lambda { name, .. } => {
                assert(names_of(seq![name]) =~= seq![name_view(name)]);
            },
            Path::DuplicationExpression { binder, .. } => {
                assert(names_of(seq![binder]) =~= seq![name_view(binder)]);
            },
            Path::DuplicationBody { binder, .. } => {
                assert(names_of(seq![binder]) =~= seq![name_view(binder)]);
            },
            Path::FunctionArgumentType { name, self_name, .. } => {
                assert(names_of(seq![name, self_name]) =~= seq![name_view(name), name_view(self_name)]);
            },
            Path::FunctionReturnType { name, self_name, .. } => {
                assert(names_of(seq![name, self_name]) =~= seq![name_view(name), name_view(self_name)]);
            },
            _ => {
                assert(names_of(Seq::<Option<String>>::empty()) =~= Seq::empty());
            },
        }
    }
}

/// `find_name` finds the first position of the name: the position holds
/// the name and no earlier one does; where it finds none, no position does.
pub proof fn lemma_find_name_first(ctx: Seq<Option<Seq<char>>>, name: Seq<char>, from: int)
    requires
        0 <= from,
    ensures
        match find_name(ctx, name, from) {
            Some(i) => from <= i < ctx.len() && ctx[i] == Some(name) && forall|j: int|
                from <= j < i ==> ctx[j] != Some(name),
            None => forall|j: int| from <= j < ctx.len() ==> ctx[j] != Some(name),
        },
    decreases ctx.len() - from,
{
    if from < ctx.len() && ctx[from] != Some(name) {
        lemma_find_name_first(ctx, name, from + 1);
    }
}

} // verus!
