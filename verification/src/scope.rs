//! The scope tracker: a stack of lexical frames plus a global table that
//! assigns every distinct declaration site a stable binding identity.
//!
//! Identities are never frame-scoped: a frame only controls name visibility,
//! while the identity assigned to a declaration site survives the frame that
//! introduced it. The whole tracker is modeled by [`ScopeView`] and every
//! operation is specified as a pure transition on that model.

use vstd::prelude::*;
use crate::ast::Ident;
use crate::ast::ObjectPatProp;
use crate::ast::Pat;
use crate::ast::elem_size;
use crate::ast::elems_size;
use crate::ast::lemma_elems_size_index;
use crate::ast::lemma_props_size_index;
use crate::ast::pat_size;
use crate::ast::prop_size;
use crate::ast::props_size;

verus! {

/// The mathematical model of a [`LexicalScope`].
///
/// `sites` lists the declaration sites in the order their identities were
/// assigned; the identity of the site at index `i` is `i + 1`. `frames`
/// is the stack of lexical frames, innermost last; each frame is a list of
/// `(name, identity)` bindings in which a later binding of a name shadows
/// an earlier one.
#[verifier::ext_equal]
pub ghost struct ScopeView {
    pub sites: Seq<(Seq<char>, u32)>,
    pub frames: Seq<Seq<(Seq<char>, nat)>>,
}

/// The scope model a fresh tracker starts from: no identities assigned and
/// one empty program-level frame.
pub open spec fn initial_scope() -> ScopeView {
    ScopeView { sites: Seq::empty(), frames: seq![Seq::empty()] }
}

/// The identity the site table assigns to `(sym, ctxt)`: one plus the
/// position of its first occurrence, or `None` if the site is unknown.
pub open spec fn find_site(sites: Seq<(Seq<char>, u32)>, sym: Seq<char>, ctxt: u32) -> Option<nat>
    decreases sites.len(),
{
    if sites.len() == 0 {
        None
    } else if sites[0] == (sym, ctxt) {
        Some(1nat)
    } else {
        match find_site(sites.drop_first(), sym, ctxt) {
            Some(id) => Some(id + 1),
            None => None,
        }
    }
}

/// Resolving or assigning an identity for a declaration site: the new site
/// table and the identity. A known site keeps the table and its identity;
/// an unknown one is appended and receives the next identity.
pub open spec fn spec_get_id(sites: Seq<(Seq<char>, u32)>, sym: Seq<char>, ctxt: u32) -> (
    Seq<(Seq<char>, u32)>,
    nat,
) {
    match find_site(sites, sym, ctxt) {
        Some(id) => (sites, id),
        None => (sites.push((sym, ctxt)), sites.len() + 1),
    }
}

/// Pushing a new empty frame.
pub open spec fn spec_push(v: ScopeView) -> ScopeView {
    ScopeView { sites: v.sites, frames: v.frames.push(Seq::empty()) }
}

/// Popping the top frame. The transition is only meaningful on a non-empty
/// stack; the executable `pop` excludes the empty stack by precondition.
pub open spec fn spec_pop(v: ScopeView) -> ScopeView {
    if v.frames.len() == 0 {
        v
    } else {
        ScopeView { sites: v.sites, frames: v.frames.drop_last() }
    }
}

/// Binding a name in the top frame: the site's identity is resolved or
/// assigned in the site table and `(sym, identity)` is appended to the
/// innermost frame, shadowing any earlier binding of the name.
pub open spec fn spec_bind_ident(v: ScopeView, sym: Seq<char>, ctxt: u32) -> ScopeView {
    if v.frames.len() == 0 {
        v
    } else {
        let (sites, id) = spec_get_id(v.sites, sym, ctxt);
        ScopeView {
            sites,
            frames: v.frames.update(
                v.frames.len() - 1,
                v.frames.last().push((sym, id)),
            ),
        }
    }
}

/// Binding every name a pattern introduces, left to right: a simple
/// identifier binds itself; an object pattern binds its shorthand
/// properties and recurses into key-value property values; an array
/// pattern recurses into its present positions. Default-valued and rest
/// patterns introduce no bindings of their own.
pub open spec fn spec_bind_pat(v: ScopeView, p: Pat) -> ScopeView
    decreases pat_size(p),
{
    match p {
        Pat::Ident(id) => spec_bind_ident(v, id.sym@, id.ctxt),
        Pat::Object(props) => spec_bind_props(v, props@),
        Pat::Array(elems) => spec_bind_elems(v, elems@),
        Pat::Assign { target: _, default: _ } => v,
        Pat::Rest(_) => v,
    }
}

/// Binding a list of object-pattern properties, left to right.
pub open spec fn spec_bind_props(v: ScopeView, ps: Seq<ObjectPatProp>) -> ScopeView
    decreases props_size(ps),
{
    if ps.len() == 0 {
        v
    } else {
        spec_bind_props(spec_bind_prop(v, ps[0]), ps.drop_first())
    }
}

/// Binding one object-pattern property.
pub open spec fn spec_bind_prop(v: ScopeView, p: ObjectPatProp) -> ScopeView
    decreases prop_size(p),
{
    match p {
        ObjectPatProp::Shorthand(id) => spec_bind_ident(v, id.sym@, id.ctxt),
        ObjectPatProp::KeyValue { key: _, value } => spec_bind_pat(v, *value),
    }
}

/// Binding one array-pattern position; an elided position binds nothing.
pub open spec fn spec_bind_elem(v: ScopeView, e: Option<Pat>) -> ScopeView
    decreases elem_size(e),
{
    match e {
        Some(p) => spec_bind_pat(v, p),
        None => v,
    }
}

/// Binding a list of array-pattern positions, left to right.
pub open spec fn spec_bind_elems(v: ScopeView, es: Seq<Option<Pat>>) -> ScopeView
    decreases elems_size(es),
{
    if es.len() == 0 {
        v
    } else {
        spec_bind_elems(spec_bind_elem(v, es[0]), es.drop_first())
    }
}

/// Looking a name up in one frame: the latest binding of the name wins.
pub open spec fn frame_lookup(f: Seq<(Seq<char>, nat)>, name: Seq<char>) -> Option<nat>
    decreases f.len(),
{
    if f.len() == 0 {
        None
    } else if f.last().0 == name {
        Some(f.last().1)
    } else {
        frame_lookup(f.drop_last(), name)
    }
}

/// Looking a name up across the stack, innermost frame first.
pub open spec fn frames_lookup(fs: Seq<Seq<(Seq<char>, nat)>>, name: Seq<char>) -> Option<nat>
    decreases fs.len(),
{
    if fs.len() == 0 {
        None
    } else {
        match frame_lookup(fs.last(), name) {
            Some(id) => Some(id),
            None => frames_lookup(fs.drop_last(), name),
        }
    }
}

/// Looking a name up in a scope: the nearest enclosing frame that binds
/// the name decides, and `None` means the name is unresolved here.
pub open spec fn spec_lookup(v: ScopeView, name: Seq<char>) -> Option<nat> {
    frames_lookup(v.frames, name)
}

/// The view of an executable identity, for stating contracts over the model.
pub open spec fn opt_id(o: Option<usize>) -> Option<nat> {
    match o {
        Some(i) => Some(i as nat),
        None => None,
    }
}

/// A declaration site as stored in the global identity table.
struct SiteKey {
    sym: String,
    ctxt: u32,
}

/// One `name -> identity` entry of a frame.
pub struct Binding {
    pub name: String,
    pub id: usize,
}

/// The `name -> identity` mapping of one lexical frame.
pub type Frame = Vec<Binding>;

/// The scope tracker: the global identity table plus the stack of frames
/// for the program at the current point of the tree.
pub struct LexicalScope {
    /// The declaration sites in order of identity assignment; the site at
    /// index `i` owns identity `i + 1`.
    ids: Vec<SiteKey>,
    /// The active frames, innermost last.
    stack: Vec<Frame>,
}

/// The model of one executable frame.
pub open spec fn frame_view(f: Frame) -> Seq<(Seq<char>, nat)> {
    f@.map_values(|b: Binding| (b.name@, b.id as nat))
}

impl View for LexicalScope {
    type V = ScopeView;

    closed spec fn view(&self) -> ScopeView {
        ScopeView {
            sites: self.ids@.map_values(|k: SiteKey| (k.sym@, k.ctxt)),
            frames: self.stack@.map_values(|f: Frame| frame_view(f)),
        }
    }
}

/// `find_site` finds the first occurrence of a site.
proof fn lemma_find_site_at(sites: Seq<(Seq<char>, u32)>, sym: Seq<char>, ctxt: u32, i: int)
    requires
        0 <= i < sites.len(),
        sites[i] == (sym, ctxt),
        forall|j: int| 0 <= j < i ==> sites[j] != (sym, ctxt),
    ensures
        find_site(sites, sym, ctxt) == Some((i + 1) as nat),
    decreases i,
{
    if i > 0 {
        assert(sites[0] != (sym, ctxt));
        lemma_find_site_at(sites.drop_first(), sym, ctxt, i - 1);
        assert(sites.drop_first()[i - 1] == sites[i]);
    }
}

/// A site that occurs nowhere is not found.
proof fn lemma_find_site_absent(sites: Seq<(Seq<char>, u32)>, sym: Seq<char>, ctxt: u32)
    requires
        forall|j: int| 0 <= j < sites.len() ==> sites[j] != (sym, ctxt),
    ensures
        find_site(sites, sym, ctxt) is None,
    decreases sites.len(),
{
    if sites.len() > 0 {
        lemma_find_site_absent(sites.drop_first(), sym, ctxt);
    }
}

impl LexicalScope {
    /// A fresh tracker: no identities assigned yet and a single empty
    /// program-level frame.
    pub fn new() -> (s: LexicalScope)
        ensures
            s@ == initial_scope(),
    {
        let mut stack: Vec<Frame> = Vec::new();
        stack.push(Vec::new());
        let s = LexicalScope { ids: Vec::new(), stack };
        proof {
            assert(s@ =~~= initial_scope());
        }
        s
    }

    /// The number of active frames.
    pub fn depth(&self) -> (n: usize)
        ensures
            n == self@.frames.len(),
    {
        self.stack.len()
    }

    /// Walk the stack from the innermost frame outwards and return the
    /// identity bound to `name` by the nearest frame that knows it.
    pub fn lookup(&self, name: &String) -> (r: Option<usize>)
        ensures
            opt_id(r) == spec_lookup(self@, name@),
    {
        let ghost fs = self@.frames;
        let mut i: usize = self.stack.len();
        proof {
            assert(fs.len() == self.stack@.len());
            assert(fs.subrange(0, fs.len() as int) =~= fs);
        }
        while i > 0
            invariant
                i <= self.stack@.len(),
                fs == self@.frames,
                fs.len() == self.stack@.len(),
                frames_lookup(fs, name@) == frames_lookup(fs.subrange(0, i as int), name@),
            decreases i,
        {
            i = i - 1;
            let f = &self.stack[i];
            let ghost fv = fs[i as int];
            proof {
                assert(fv == frame_view(self.stack@[i as int]));
            }
            let mut j: usize = f.len();
            proof {
                assert(fv.len() == f@.len());
                assert(fv.subrange(0, fv.len() as int) =~= fv);
            }
            while j > 0
                invariant
                    j <= f@.len(),
                    fs == self@.frames,
                    fs.len() == self.stack@.len(),
                    i < fs.len(),
                    fv == fs[i as int],
                    fv == frame_view(*f),
                    frames_lookup(fs, name@) == frames_lookup(fs.subrange(0, (i + 1) as int), name@),
                    frame_lookup(fv, name@) == frame_lookup(fv.subrange(0, j as int), name@),
                decreases j,
            {
                j = j - 1;
                let b = &f[j];
                proof {
                    assert(fv[j as int] == (b.name@, b.id as nat));
                    assert(fv.subrange(0, (j + 1) as int).last() == fv[j as int]);
                    assert(fv.subrange(0, (j + 1) as int).drop_last() =~= fv.subrange(0, j as int));
                }
                if b.name == *name {
                    proof {
                        assert(frame_lookup(fv, name@) == Some(b.id as nat));
                        assert(fs.subrange(0, (i + 1) as int).last() == fv);
                        assert(fs.subrange(0, (i + 1) as int).drop_last() =~= fs.subrange(0, i as int));
                        assert(frames_lookup(fs, name@) == Some(b.id as nat));
                    }
                    return Some(b.id);
                }
            }
            proof {
                assert(frame_lookup(fv, name@) == frame_lookup(fv.subrange(0, 0), name@));
                assert(frame_lookup(fv, name@) is None);
                assert(fs.subrange(0, (i + 1) as int).last() == fv);
                assert(fs.subrange(0, (i + 1) as int).drop_last() =~= fs.subrange(0, i as int));
            }
        }
        proof {
            assert(frames_lookup(fs, name@) == frames_lookup(fs.subrange(0, 0), name@));
        }
        None
    }

    /// Push a new empty frame onto the stack.
    pub fn push(&mut self)
        ensures
            final(self)@ == spec_push(old(self)@),
    {
        self.stack.push(Vec::new());
        proof {
            assert(self@ =~~= spec_push(old(self)@));
        }
    }

    /// Discard the top frame. Popping an empty stack would be a structural
    /// invariant violation of the traversal, so the empty stack is excluded
    /// here; every identity bound only in the discarded frame stays recorded
    /// in the identity table.
    pub fn pop(&mut self)
        requires
            old(self)@.frames.len() > 0,
        ensures
            final(self)@ == spec_pop(old(self)@),
    {
        let _ = self.stack.pop();
        proof {
            assert(self@ =~~= spec_pop(old(self)@));
        }
    }

    /// Resolve or assign the identity of a declaration site. The call is
    /// idempotent: the same `(sym, ctxt)` pair always receives the same
    /// identity, however often it is re-encountered.
    pub fn get_unique_id(&mut self, ident: &Ident) -> (id: usize)
        ensures
            final(self)@.frames == old(self)@.frames,
            (final(self)@.sites, id as nat) == spec_get_id(old(self)@.sites, ident.sym@, ident.ctxt),
    {
        let ghost sites = self@.sites;
        let n = self.ids.len();
        let mut i: usize = 0;
        while i < n
            invariant
                n == self.ids@.len(),
                i <= n,
                sites == self@.sites,
                self.ids == old(self).ids,
                self.stack == old(self).stack,
                forall|j: int| 0 <= j < i ==> sites[j] != (ident.sym@, ident.ctxt),
            decreases n - i,
        {
            let k = &self.ids[i];
            proof {
                assert(sites[i as int] == (k.sym@, k.ctxt));
            }
            if k.ctxt == ident.ctxt && k.sym == ident.sym {
                proof {
                    lemma_find_site_at(sites, ident.sym@, ident.ctxt, i as int);
                }
                return i + 1;
            }
            i = i + 1;
        }
        proof {
            lemma_find_site_absent(sites, ident.sym@, ident.ctxt);
        }
        self.ids.push(SiteKey { sym: ident.sym.clone(), ctxt: ident.ctxt });
        proof {
            assert(self@.sites =~= sites.push((ident.sym@, ident.ctxt)));
            assert(self@.frames =~~= old(self)@.frames);
        }
        self.ids.len()
    }

    /// Bind an identifier's name to its site's identity in the top frame,
    /// shadowing any same-named binding of an enclosing frame for lookups
    /// made while this frame is active.
    pub fn bind_ident(&mut self, ident: &Ident)
        requires
            old(self)@.frames.len() > 0,
        ensures
            final(self)@ == spec_bind_ident(old(self)@, ident.sym@, ident.ctxt),
    {
        let id = self.get_unique_id(ident);
        let ghost mid = self@;
        let mut top = self.stack.pop().unwrap();
        top.push(Binding { name: ident.sym.clone(), id });
        let ghost topv = frame_view(top);
        self.stack.push(top);
        proof {
            let target = spec_bind_ident(old(self)@, ident.sym@, ident.ctxt);
            assert(topv =~= old(self)@.frames.last().push((ident.sym@, id as nat)));
            assert(self@ =~~= target);
        }
    }

    /// Bind every name a pattern introduces into the current top frame.
    pub fn bind_pat(&mut self, pat: &Pat)
        requires
            old(self)@.frames.len() > 0,
        ensures
            final(self)@ == spec_bind_pat(old(self)@, *pat),
        decreases pat_size(*pat),
    {
        match pat {
            Pat::Ident(id) => {
                self.bind_ident(id);
            },
            Pat::Object(props) => {
                let ghost v0 = self@;
                let n = props.len();
                let mut i: usize = 0;
                proof {
                    assert(props@.subrange(0, n as int) =~= props@);
                }
                while i < n
                    invariant
                        n == props@.len(),
                        i <= n,
                        self@.frames.len() > 0,
                        spec_bind_props(v0, props@) == spec_bind_props(
                            self@,
                            props@.subrange(i as int, n as int),
                        ),
                        pat_size(*pat) == 1 + props_size(props@),
                    decreases n - i,
                {
                    let ghost pre = self@;
                    proof {
                        lemma_props_size_index(props@, i as int);
                        assert(props@.subrange(i as int, n as int)[0] == props@[i as int]);
                        assert(props@.subrange(i as int, n as int).drop_first() =~= props@.subrange(
                            (i + 1) as int,
                            n as int,
                        ));
                    }
                    match &props[i] {
                        ObjectPatProp::Shorthand(id) => {
                            self.bind_ident(id);
                        },
                        ObjectPatProp::KeyValue { key: _, value } => {
                            self.bind_pat(value);
                        },
                    }
                    proof {
                        assert(self@ == spec_bind_prop(pre, props@[i as int]));
                        lemma_bind_prop_frames(pre, props@[i as int]);
                    }
                    i = i + 1;
                }
                proof {
                    assert(props@.subrange(n as int, n as int).len() == 0);
                }
            },
            Pat::Array(elems) => {
                let ghost v0 = self@;
                let n = elems.len();
                let mut i: usize = 0;
                proof {
                    assert(elems@.subrange(0, n as int) =~= elems@);
                }
                while i < n
                    invariant
                        n == elems@.len(),
                        i <= n,
                        self@.frames.len() > 0,
                        spec_bind_elems(v0, elems@) == spec_bind_elems(
                            self@,
                            elems@.subrange(i as int, n as int),
                        ),
                        pat_size(*pat) == 1 + elems_size(elems@),
                    decreases n - i,
                {
                    let ghost pre = self@;
                    proof {
                        lemma_elems_size_index(elems@, i as int);
                        assert(elems@.subrange(i as int, n as int)[0] == elems@[i as int]);
                        assert(elems@.subrange(i as int, n as int).drop_first() =~= elems@.subrange(
                            (i + 1) as int,
                            n as int,
                        ));
                    }
                    match &elems[i] {
                        Some(p) => {
                            self.bind_pat(p);
                        },
                        None => {},
                    }
                    proof {
                        assert(self@ == spec_bind_elem(pre, elems@[i as int]));
                        lemma_bind_elem_frames(pre, elems@[i as int]);
                    }
                    i = i + 1;
                }
                proof {
                    assert(elems@.subrange(n as int, n as int).len() == 0);
                }
            },
            Pat::Assign { target: _, default: _ } => {},
            Pat::Rest(_) => {},
        }
    }
}

/// Binding a pattern never changes the number of frames.
pub proof fn lemma_bind_pat_frames(v: ScopeView, p: Pat)
    ensures
        spec_bind_pat(v, p).frames.len() == v.frames.len(),
    decreases pat_size(p),
{
    match p {
        Pat::Ident(_) => {},
        Pat::Object(props) => {
            lemma_bind_props_frames(v, props@);
        },
        Pat::Array(elems) => {
            lemma_bind_elems_frames(v, elems@);
        },
        Pat::Assign { target: _, default: _ } => {},
        Pat::Rest(_) => {},
    }
}

/// Binding a property list never changes the number of frames.
pub proof fn lemma_bind_props_frames(v: ScopeView, ps: Seq<ObjectPatProp>)
    ensures
        spec_bind_props(v, ps).frames.len() == v.frames.len(),
    decreases props_size(ps),
{
    if ps.len() > 0 {
        lemma_bind_prop_frames(v, ps[0]);
        lemma_bind_props_frames(spec_bind_prop(v, ps[0]), ps.drop_first());
    }
}

/// Binding one property never changes the number of frames.
pub proof fn lemma_bind_prop_frames(v: ScopeView, p: ObjectPatProp)
    ensures
        spec_bind_prop(v, p).frames.len() == v.frames.len(),
    decreases prop_size(p),
{
    match p {
        ObjectPatProp::Shorthand(_) => {},
        ObjectPatProp::KeyValue { key: _, value } => {
            lemma_bind_pat_frames(v, *value);
        },
    }
}

/// Binding one array-pattern position never changes the number of frames.
pub proof fn lemma_bind_elem_frames(v: ScopeView, e: Option<Pat>)
    ensures
        spec_bind_elem(v, e).frames.len() == v.frames.len(),
    decreases elem_size(e),
{
    match e {
        Some(p) => {
            lemma_bind_pat_frames(v, p);
        },
        None => {},
    }
}

/// Binding an array-position list never changes the number of frames.
pub proof fn lemma_bind_elems_frames(v: ScopeView, es: Seq<Option<Pat>>)
    ensures
        spec_bind_elems(v, es).frames.len() == v.frames.len(),
    decreases elems_size(es),
{
    if es.len() > 0 {
        lemma_bind_elem_frames(v, es[0]);
        lemma_bind_elems_frames(spec_bind_elem(v, es[0]), es.drop_first());
    }
}

} // verus!
