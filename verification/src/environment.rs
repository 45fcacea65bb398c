//! Lexically scoped variable storage: a stack of scope frames, each a
//! mapping from variable name to value. Frames are pushed on block entry and
//! popped on block exit in strict LIFO order; the outermost (global) frame
//! always exists. A name may shadow an outer frame's binding, but a name
//! already present in its own frame may not be redeclared.

use vstd::prelude::*;
use vstd::pervasive::VecAdditionalExecFns;

use crate::ast::{LiteralValue, ValueModel};

verus! {

/// One scope frame: an association list from name to value, with unique
/// names.
pub type Frame = Vec<(Vec<u8>, LiteralValue)>;

/// The model of a frame: the mapping it represents.
pub open spec fn frame_map(f: Seq<(Vec<u8>, LiteralValue)>) -> Map<Seq<u8>, ValueModel>
    decreases f.len(),
{
    if f.len() == 0 {
        Map::empty()
    } else {
        frame_map(f.drop_last()).insert(f.last().0@, f.last().1@)
    }
}

/// The names in a frame are pairwise distinct.
pub open spec fn frame_unique(f: Seq<(Vec<u8>, LiteralValue)>) -> bool {
    forall|j: int, k: int|
        0 <= j < k < f.len() ==> (#[trigger] f[j]).0@ != (#[trigger] f[k]).0@
}

/// The binding at index `i` is visible in the frame's mapping.
pub proof fn lemma_frame_map_at(f: Seq<(Vec<u8>, LiteralValue)>, i: int)
    requires
        frame_unique(f),
        0 <= i < f.len(),
    ensures
        frame_map(f).contains_key(f[i].0@),
        frame_map(f)[f[i].0@] == f[i].1@,
    decreases f.len(),
{
    if i < f.len() - 1 {
        assert(f.drop_last()[i] == f[i]);
        lemma_frame_map_at(f.drop_last(), i);
    }
}

/// A name bound at no index is absent from the frame's mapping.
pub proof fn lemma_frame_map_absent(f: Seq<(Vec<u8>, LiteralValue)>, key: Seq<u8>)
    requires
        forall|i: int| 0 <= i < f.len() ==> (#[trigger] f[i]).0@ != key,
    ensures
        !frame_map(f).contains_key(key),
    decreases f.len(),
{
    if f.len() > 0 {
        assert(forall|i: int|
            0 <= i < f.drop_last().len() ==> (#[trigger] f.drop_last()[i]).0@ != key);
        lemma_frame_map_absent(f.drop_last(), key);
    }
}

/// Replacing the binding at index `i` with one of the same name updates the
/// frame's mapping at that name.
pub proof fn lemma_frame_map_update(
    f: Seq<(Vec<u8>, LiteralValue)>,
    i: int,
    p: (Vec<u8>, LiteralValue),
)
    requires
        frame_unique(f),
        0 <= i < f.len(),
        p.0@ == f[i].0@,
    ensures
        frame_map(f.update(i, p)) == frame_map(f).insert(p.0@, p.1@),
        frame_unique(f.update(i, p)),
    decreases f.len(),
{
    let g = f.update(i, p);
    assert(frame_unique(g)) by {
        assert(forall|j: int| 0 <= j < g.len() && j != i ==> g[j] == f[j]);
    }
    if i == f.len() - 1 {
        assert(g.drop_last() =~= f.drop_last());
        assert(g.last() == p);
        assert(frame_map(f.drop_last()).insert(f.last().0@, f.last().1@).insert(p.0@, p.1@)
            =~= frame_map(f.drop_last()).insert(p.0@, p.1@));
    } else {
        assert(g.drop_last() =~= f.drop_last().update(i, p));
        assert(g.last() == f.last());
        assert(f.drop_last()[i] == f[i]);
        lemma_frame_map_update(f.drop_last(), i, p);
        assert(f[i].0@ != f.last().0@);
        assert(frame_map(f.drop_last()).insert(p.0@, p.1@).insert(f.last().0@, f.last().1@)
            =~= frame_map(f.drop_last()).insert(f.last().0@, f.last().1@).insert(p.0@, p.1@));
    }
}

/// The model of the whole environment: one mapping per scope frame, the
/// global frame first.
pub open spec fn scopes_view(scopes: Seq<Frame>) -> Seq<Map<Seq<u8>, ValueModel>> {
    scopes.map_values(|fr: Frame| frame_map(fr@))
}

/// Looking a name up, innermost frame first.
pub open spec fn env_lookup(env: Seq<Map<Seq<u8>, ValueModel>>, name: Seq<u8>) -> Option<
    ValueModel,
>
    decreases env.len(),
{
    if env.len() == 0 {
        None
    } else if env.last().contains_key(name) {
        Some(env.last()[name])
    } else {
        env_lookup(env.drop_last(), name)
    }
}

/// Assigning to a name: the innermost frame containing it is updated; when
/// no frame contains it, the environment is unchanged.
pub open spec fn env_assign(
    env: Seq<Map<Seq<u8>, ValueModel>>,
    name: Seq<u8>,
    v: ValueModel,
) -> Seq<Map<Seq<u8>, ValueModel>>
    decreases env.len(),
{
    if env.len() == 0 {
        env
    } else if env.last().contains_key(name) {
        env.update(env.len() - 1, env.last().insert(name, v))
    } else {
        env_assign(env.drop_last(), name, v).push(env.last())
    }
}

/// Assignment never changes the number of frames.
pub proof fn lemma_env_assign_len(env: Seq<Map<Seq<u8>, ValueModel>>, name: Seq<u8>, v: ValueModel)
    ensures
        env_assign(env, name, v).len() == env.len(),
    decreases env.len(),
{
    if env.len() > 0 && !env.last().contains_key(name) {
        lemma_env_assign_len(env.drop_last(), name, v);
    }
}

/// Whether two byte strings hold the same bytes.
pub fn bytes_eq(a: &Vec<u8>, b: &Vec<u8>) -> (r: bool)
    ensures
        r == (a@ == b@),
{
    if a.len() != b.len() {
        return false;
    }
    let mut i: usize = 0;
    while i < a.len()
        invariant
            i <= a.len(),
            a.len() == b.len(),
            forall|k: int| 0 <= k < i ==> a@[k] == b@[k],
        decreases a.len() - i,
    {
        if a[i] != b[i] {
            return false;
        }
        i = i + 1;
    }
    proof {
        assert(a@ =~= b@);
    }
    true
}

/// Finds the index of a name in a frame, if it is bound there.
fn frame_find(f: &Frame, name: &Vec<u8>) -> (r: Option<usize>)
    ensures
        match r {
            Some(i) => i < f.len() && f@[i as int].0@ == name@,
            None => forall|i: int| 0 <= i < f@.len() ==> (#[trigger] f@[i]).0@ != name@,
        },
{
    let mut i: usize = 0;
    while i < f.len()
        invariant
            i <= f.len(),
            forall|k: int| 0 <= k < i ==> (#[trigger] f@[k]).0@ != name@,
        decreases f.len() - i,
    {
        if bytes_eq(&f[i].0, name) {
            return Some(i);
        }
        i = i + 1;
    }
    None
}

/// The stack of scope frames.
#[derive(Debug)]
pub struct Environment {
    pub scopes: Vec<Frame>,
}

impl View for Environment {
    type V = Seq<Map<Seq<u8>, ValueModel>>;

    open spec fn view(&self) -> Seq<Map<Seq<u8>, ValueModel>> {
        scopes_view(self.scopes@)
    }
}

impl Environment {
    /// Every frame has pairwise distinct names (the global frame may be
    /// absent only transiently, inside `update`).
    pub open spec fn frames_unique(self) -> bool {
        forall|i: int| 0 <= i < self.scopes@.len() ==> frame_unique((#[trigger] self.scopes@[i])@)
    }

    /// Well-formed: unique names per frame, and the global frame exists.
    pub open spec fn wf(self) -> bool {
        &&& self.frames_unique()
        &&& self.scopes@.len() >= 1
    }

    /// A new environment holding only the empty global scope.
    pub fn new() -> (e: Environment)
        ensures
            e.wf(),
            e@ =~= seq![Map::<Seq<u8>, ValueModel>::empty()],
    {
        let mut scopes: Vec<Frame> = Vec::new();
        scopes.push(Vec::new());
        let e = Environment { scopes };
        proof {
            assert(e@ =~= seq![Map::<Seq<u8>, ValueModel>::empty()]);
        }
        e
    }

    /// Looks a name up, innermost scope first; the value is returned as a
    /// copy.
    pub fn get(&self, name: &Vec<u8>) -> (r: Option<LiteralValue>)
        requires
            self.frames_unique(),
        ensures
            match r {
                Some(v) => env_lookup(self@, name@) == Some(v@),
                None => env_lookup(self@, name@) is None,
            },
    {
        let mut i: usize = self.scopes.len();
        proof {
            assert(self@.take(i as int) =~= self@);
        }
        while i > 0
            invariant
                i <= self.scopes@.len(),
                self.frames_unique(),
                env_lookup(self@, name@) == env_lookup(self@.take(i as int), name@),
            decreases i,
        {
            i = i - 1;
            match frame_find(&self.scopes[i], name) {
                Some(j) => {
                    proof {
                        lemma_frame_map_at(self.scopes@[i as int]@, j as int);
                        assert(self@.take(i + 1 as int).last() == self@[i as int]);
                    }
                    return Some(crate::ast::dup_value(&self.scopes[i][j].1));
                },
                None => {
                    proof {
                        lemma_frame_map_absent(self.scopes@[i as int]@, name@);
                        assert(self@.take(i + 1 as int).last() == self@[i as int]);
                        assert(self@.take(i + 1 as int).drop_last() =~= self@.take(i as int));
                    }
                },
            }
        }
        proof {
            assert(self@.take(0) =~= Seq::<Map<Seq<u8>, ValueModel>>::empty());
        }
        None
    }

    /// Binds a name in the current (innermost) scope, replacing any binding
    /// of the same name there.
    pub fn set(&mut self, name: Vec<u8>, value: LiteralValue)
        requires
            old(self).wf(),
        ensures
            final(self).wf(),
            final(self)@ =~= old(self)@.update(
                old(self)@.len() - 1,
                old(self)@.last().insert(name@, value@),
            ),
    {
        let ghost oldscopes = self.scopes@;
        let mut fr = self.scopes.pop().unwrap();
        let ghost oldfr = fr@;
        match frame_find(&fr, &name) {
            Some(i) => {
                fr.set(i, (name, value));
                proof {
                    lemma_frame_map_update(oldfr, i as int, fr@[i as int]);
                }
            },
            None => {
                fr.push((name, value));
                proof {
                    assert(fr@.drop_last() =~= oldfr);
                    assert(frame_unique(fr@)) by {
                        assert(forall|k: int| 0 <= k < oldfr.len() ==> fr@[k] == oldfr[k]);
                    }
                }
            },
        }
        self.scopes.push(fr);
        proof {
            assert(self.scopes@ =~= oldscopes.update(oldscopes.len() - 1, fr));
            assert(self@ =~= old(self)@.update(
                old(self)@.len() - 1,
                old(self)@.last().insert(name@, value@),
            ));
        }
    }

    /// Assigns to a name: the innermost scope containing it is updated; when
    /// no scope contains it, the environment is left unchanged.
    pub fn update(&mut self, name: &Vec<u8>, value: LiteralValue)
        requires
            old(self).frames_unique(),
        ensures
            final(self).frames_unique(),
            final(self)@ =~= env_assign(old(self)@, name@, value@),
            final(self)@.len() == old(self)@.len(),
        decreases old(self).scopes@.len(),
    {
        if self.scopes.len() == 0 {
            return ;
        }
        let ghost oldscopes = self.scopes@;
        let mut fr = self.scopes.pop().unwrap();
        let ghost oldfr = fr@;
        proof {
            assert(self.scopes@ =~= oldscopes.drop_last());
            assert(self@ =~= old(self)@.drop_last());
        }
        match frame_find(&fr, name) {
            Some(i) => {
                proof {
                    lemma_frame_map_at(oldfr, i as int);
                }
                fr.set(i, (crate::token::clone_bytes(name), value));
                proof {
                    lemma_frame_map_update(oldfr, i as int, fr@[i as int]);
                }
                self.scopes.push(fr);
                proof {
                    assert(self.scopes@ =~= oldscopes.update(oldscopes.len() - 1, fr));
                    assert(self@ =~= env_assign(old(self)@, name@, value@));
                }
            },
            None => {
                proof {
                    lemma_frame_map_absent(oldfr, name@);
                }
                self.update(name, value);
                self.scopes.push(fr);
                proof {
                    assert(self@ =~= env_assign(old(self)@.drop_last(), name@, value@).push(
                        old(self)@.last(),
                    ));
                    lemma_env_assign_len(old(self)@.drop_last(), name@, value@);
                }
            },
        }
    }

    /// Whether the current (innermost) scope already binds the name.
    pub fn contains_in_current_scope(&self, name: &Vec<u8>) -> (r: bool)
        requires
            self.wf(),
        ensures
            r == self@.last().contains_key(name@),
    {
        let n = self.scopes.len();
        match frame_find(&self.scopes[n - 1], name) {
            Some(j) => {
                proof {
                    lemma_frame_map_at(self.scopes@[n - 1]@, j as int);
                }
                true
            },
            None => {
                proof {
                    lemma_frame_map_absent(self.scopes@[n - 1]@, name@);
                }
                false
            },
        }
    }

    /// Enters a block: pushes a fresh, empty scope frame.
    pub fn push_scope(&mut self)
        requires
            old(self).wf(),
        ensures
            final(self).wf(),
            final(self)@ =~= old(self)@.push(Map::<Seq<u8>, ValueModel>::empty()),
    {
        self.scopes.push(Vec::new());
        proof {
            assert(final(self)@ =~= old(self)@.push(Map::<Seq<u8>, ValueModel>::empty()));
        }
    }

    /// Leaves a block: discards the innermost scope frame. The global frame
    /// is never popped.
    pub fn pop_scope(&mut self)
        requires
            old(self).wf(),
            old(self)@.len() >= 2,
        ensures
            final(self).wf(),
            final(self)@ =~= old(self)@.drop_last(),
    {
        let _ = self.scopes.pop();
        proof {
            assert(final(self)@ =~= old(self)@.drop_last());
        }
    }
}

} // verus!
