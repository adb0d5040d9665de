//! What holds of every table: how writes, frames and resolution relate.

use vstd::prelude::*;
use crate::dict::{distinct, holds, lemma_dropped, lemma_stored, lookup};
use crate::sym::{
    assigned, bound, completions, gathered, initial, innermost, popped, pushed, rebuilt, rehashed,
    resolved, scoped, target, valid, DirEntryModel, FnModel, HostModel, ResolutionModel,
    ScopeModel, ScopeSpec, SymModel, SymType, TableModel, ValModel,
};
use crate::text::lemma_firsts;

verus! {

/// The search for the frame that holds a name looks at the frames below `n`
/// only.
pub proof fn lemma_innermost_below(a: Seq<ScopeModel>, b: Seq<ScopeModel>, name: Seq<char>, n: int)
    requires
        n <= a.len(),
        n <= b.len(),
        forall|i: int| 0 <= i < n ==> a[i] == b[i],
    ensures
        innermost(a, name, n) == innermost(b, name, n),
    decreases n,
{
    if n > 0 {
        lemma_innermost_below(a, b, name, n - 1);
    }
}

/// The search for a binding looks at the frames below `n` only.
pub proof fn lemma_scoped_below(a: Seq<ScopeModel>, b: Seq<ScopeModel>, name: Seq<char>, kinds: Seq<SymType>, n: int)
    requires
        n <= a.len(),
        n <= b.len(),
        forall|i: int| 0 <= i < n ==> a[i] == b[i],
    ensures
        scoped(a, name, kinds, n) == scoped(b, name, kinds, n),
    decreases n,
{
    if n > 0 {
        lemma_scoped_below(a, b, name, kinds, n - 1);
    }
}

/// What the frames give for a name is a binding of one of them, of a kind
/// that was asked for.
pub proof fn lemma_scoped_origin(scopes: Seq<ScopeModel>, name: Seq<char>, kinds: Seq<SymType>, n: int)
    requires
        n <= scopes.len(),
    ensures
        match scoped(scopes, name, kinds, n) {
            Some(SymModel::Var(t)) => kinds.contains(SymType::Var) && exists|i: int|
                0 <= i < n && lookup(#[trigger] scopes[i].vars, name) == Some(ValModel::Var(t)),
            Some(SymModel::Fn(f)) => kinds.contains(SymType::Fn) && exists|i: int|
                0 <= i < n && lookup(#[trigger] scopes[i].vars, name) == Some(ValModel::Fn(f)),
            Some(_) => false,
            None => true,
        },
    decreases n,
{
    if n > 0 {
        lemma_scoped_origin(scopes, name, kinds, n - 1);
        match lookup(scopes[n - 1].vars, name) {
            Some(ValModel::Var(t)) => {
                if kinds.contains(SymType::Var) {
                    assert(lookup(scopes[n - 1].vars, name) == Some(ValModel::Var(t)));
                }
            },
            Some(ValModel::Fn(f)) => {
                if kinds.contains(SymType::Fn) {
                    assert(lookup(scopes[n - 1].vars, name) == Some(ValModel::Fn(f)));
                }
            },
            None => {},
        }
    }
}

/// One change that the interpreter makes to the frames.
pub ghost enum Change {
    /// A write of `text` to `name` under `sc`; `is_opt` says whether the
    /// name is an option key.
    Text { name: Seq<char>, text: Seq<char>, sc: ScopeSpec, is_opt: bool },
    /// A definition of the function `def` under `name` and `sc`.
    Def { name: Seq<char>, def: FnModel, sc: ScopeSpec },
}

impl Change {
    /// The name that the change is made to.
    pub open spec fn key(self) -> Seq<char> {
        match self {
            Change::Text { name, .. } => name,
            Change::Def { name, .. } => name,
        }
    }

    /// The scope that the change is made under.
    pub open spec fn scope(self) -> ScopeSpec {
        match self {
            Change::Text { sc, .. } => sc,
            Change::Def { sc, .. } => sc,
        }
    }
}

/// The table after one change.
pub open spec fn changed(m: TableModel, c: Change) -> TableModel {
    match c {
        Change::Text { name, text, sc, is_opt } => assigned(m, name, text, sc, is_opt),
        Change::Def { name, def, sc } => bound(m, name, ValModel::Fn(def), sc),
    }
}

/// The table after a sequence of changes, made in order.
pub open spec fn changed_all(m: TableModel, cs: Seq<Change>) -> TableModel
    decreases cs.len(),
{
    if cs.len() == 0 {
        m
    } else {
        changed(changed_all(m, cs.drop_last()), cs.last())
    }
}

/// A change made in a frame pushed on `m` goes to that frame where it is
/// made under `Local`, or under `Default` when the pushed frame is the
/// boundary of a function call or no frame of `m` within reach holds the
/// name.
pub open spec fn lands_on_top(m: TableModel, is_fn: bool, c: Change) -> bool {
    ||| c.scope() == ScopeSpec::Local
    ||| c.scope() == ScopeSpec::Default && (is_fn || innermost(m.scopes, c.key(), m.scopes.len() as int) < 0)
}

/// Changes that each land in a pushed frame leave the frames below it, the
/// cache and the registry as they were.
proof fn lemma_changes_stay_on_top(m: TableModel, is_fn: bool, cs: Seq<Change>)
    requires
        valid(m),
        forall|i: int| 0 <= i < cs.len() ==> lands_on_top(m, is_fn, #[trigger] cs[i]),
    ensures
        changed_all(pushed(m, is_fn), cs).scopes.len() == m.scopes.len() + 1,
        changed_all(pushed(m, is_fn), cs).scopes.drop_last() == m.scopes,
        changed_all(pushed(m, is_fn), cs).scopes.last().is_fn == is_fn,
        changed_all(pushed(m, is_fn), cs).bins == m.bins,
        changed_all(pushed(m, is_fn), cs).builtins == m.builtins,
    decreases cs.len(),
{
    let n = m.scopes.len() as int;
    if cs.len() == 0 {
        assert(pushed(m, is_fn).scopes.drop_last() =~= m.scopes);
    } else {
        let before = cs.drop_last();
        assert forall|i: int| 0 <= i < before.len() implies lands_on_top(m, is_fn, #[trigger] before[i]) by {
            assert(before[i] == cs[i]);
        }
        lemma_changes_stay_on_top(m, is_fn, before);
        let t = changed_all(pushed(m, is_fn), before);
        let c = cs.last();
        assert(lands_on_top(m, is_fn, c));
        assert forall|i: int| 0 <= i < n implies t.scopes[i] == m.scopes[i] by {
            assert(t.scopes.drop_last()[i] == t.scopes[i]);
        }
        lemma_innermost_below(t.scopes, m.scopes, c.key(), n);
        assert(target(t, c.key(), c.scope()) == n);
        assert(changed(t, c).scopes.drop_last() =~= m.scopes);
    }
}

/// What is written in a pushed frame is gone when the frame is popped: after
/// a push, any sequence of changes that each land in the pushed frame, and a
/// pop, the table is what it was before the push. Nothing written in between
/// is visible to a later resolution.
pub proof fn law_pushed_writes_do_not_leak(m: TableModel, is_fn: bool, cs: Seq<Change>)
    requires
        valid(m),
        forall|i: int| 0 <= i < cs.len() ==> lands_on_top(m, is_fn, #[trigger] cs[i]),
    ensures
        popped(changed_all(pushed(m, is_fn), cs)) == m,
        forall|name: Seq<char>, kinds: Seq<SymType>, host: HostModel|
            resolved(popped(changed_all(pushed(m, is_fn), cs)), name, kinds, host) == resolved(
                m,
                name,
                kinds,
                host,
            ),
{
    lemma_changes_stay_on_top(m, is_fn, cs);
}

/// A write made in a pushed frame is gone when the frame is popped: the
/// table is what it was before the push. This holds of a write under `Local`,
/// and of one under `Default` where the pushed frame is the boundary of a
/// function call or no frame within reach held the name before the push. A
/// `Default` write from a frame that is no boundary, to a name that a frame
/// within reach holds, updates that frame in place, and stays.
pub proof fn law_pushed_write_does_not_leak(
    m: TableModel,
    name: Seq<char>,
    text: Seq<char>,
    sc: ScopeSpec,
    is_opt: bool,
    is_fn: bool,
)
    requires
        valid(m),
        sc == ScopeSpec::Local || sc == ScopeSpec::Default,
        sc == ScopeSpec::Default && !is_fn ==> innermost(m.scopes, name, m.scopes.len() as int) < 0,
    ensures
        popped(assigned(pushed(m, is_fn), name, text, sc, is_opt)) == m,
{
    let c = Change::Text { name, text, sc, is_opt };
    let cs = seq![c];
    assert(cs[0] == c);
    assert(cs.drop_last() =~= Seq::<Change>::empty());
    assert(changed_all(pushed(m, is_fn), cs.drop_last()) == pushed(m, is_fn));
    assert(changed_all(pushed(m, is_fn), cs) == assigned(pushed(m, is_fn), name, text, sc, is_opt));
    law_pushed_writes_do_not_leak(m, is_fn, cs);
}

/// A `Default` write in the frame of a function call never reaches the
/// caller: whatever the name and the text, and whatever the caller's frames
/// hold, the table after the pop is what it was before the push.
pub proof fn law_function_call_write_does_not_leak(
    m: TableModel,
    name: Seq<char>,
    text: Seq<char>,
    is_opt: bool,
)
    requires
        valid(m),
    ensures
        popped(assigned(pushed(m, true), name, text, ScopeSpec::Default, is_opt)) == m,
        forall|kinds: Seq<SymType>, host: HostModel|
            resolved(popped(assigned(pushed(m, true), name, text, ScopeSpec::Default, is_opt)), name, kinds, host)
                == resolved(m, name, kinds, host),
{
    law_pushed_write_does_not_leak(m, name, text, ScopeSpec::Default, is_opt, true);
}

/// Writing the empty text deletes: after a variable is written to the top
/// frame and the empty text is written over it, a resolution that asks for
/// variables finds none under the name. This holds where the name is no
/// option key and no frame below the top binds it as a variable.
pub proof fn law_delete_on_empty(m: TableModel, name: Seq<char>, text: Seq<char>, host: HostModel)
    requires
        valid(m),
        !host.is_opt,
        scoped(m.scopes, name, seq![SymType::Var], m.scopes.len() - 1).is_none(),
    ensures
        resolved(
            assigned(
                assigned(m, name, text, ScopeSpec::Local, false),
                name,
                Seq::empty(),
                ScopeSpec::Local,
                false,
            ),
            name,
            seq![SymType::Var],
            host,
        ) == ResolutionModel::Missing,
{
    let kinds = seq![SymType::Var];
    let top = m.scopes.len() - 1;
    let m1 = assigned(m, name, text, ScopeSpec::Local, false);
    let m2 = assigned(m1, name, Seq::empty(), ScopeSpec::Local, false);
    if text.len() == 0 {
        lemma_dropped(m.scopes[top].vars, name);
    } else {
        lemma_stored(m.scopes[top].vars, name, ValModel::Var(text));
    }
    lemma_dropped(m1.scopes[top].vars, name);
    assert(!holds(m2.scopes[top].vars, name));
    lemma_scoped_below(m2.scopes, m.scopes, name, kinds, top);
    assert(kinds[0] == SymType::Var);
    assert(!kinds.contains(SymType::Fn));
    assert(!kinds.contains(SymType::Environment));
    assert(!kinds.contains(SymType::Builtin));
    assert(!kinds.contains(SymType::Binary));
    assert(scoped(m2.scopes, name, kinds, top + 1) == scoped(m2.scopes, name, kinds, top));
}

/// A variable written to the global frame is seen from every stack of frames
/// that stands on that frame and does not hold the name higher up: a
/// resolution that asks for variables finds the text that was written.
pub proof fn law_global_write_is_visible(
    m: TableModel,
    later: TableModel,
    name: Seq<char>,
    text: Seq<char>,
    kinds: Seq<SymType>,
    host: HostModel,
)
    requires
        valid(m),
        text.len() > 0,
        !host.is_opt,
        kinds.contains(SymType::Var),
        later.scopes.len() >= 1,
        later.scopes[0] == assigned(m, name, text, ScopeSpec::Global, false).scopes[0],
        forall|i: int| 1 <= i < later.scopes.len() ==> !holds(#[trigger] later.scopes[i].vars, name),
    ensures
        resolved(later, name, kinds, host) == ResolutionModel::Found(SymModel::Var(text)),
{
    lemma_stored(m.scopes[0].vars, name, ValModel::Var(text));
    lemma_seen_from_above(later.scopes, name, text, kinds, later.scopes.len() as int);
}

/// A variable of the bottom frame that no higher frame hides is what the
/// frames give for its name.
proof fn lemma_seen_from_above(scopes: Seq<ScopeModel>, name: Seq<char>, text: Seq<char>, kinds: Seq<SymType>, n: int)
    requires
        1 <= n <= scopes.len(),
        kinds.contains(SymType::Var),
        lookup(scopes[0].vars, name) == Some(ValModel::Var(text)),
        forall|i: int| 1 <= i < scopes.len() ==> !holds(#[trigger] scopes[i].vars, name),
    ensures
        scoped(scopes, name, kinds, n) == Some(SymModel::Var(text)),
    decreases n,
{
    if n > 1 {
        lemma_seen_from_above(scopes, name, text, kinds, n - 1);
        assert(!holds(scopes[n - 1].vars, name));
    }
}

/// Variables and functions do not pass for one another. A resolution that
/// asks for variables alone never gives a function, and what it gives from
/// the frames is the text of a variable binding of that name. A resolution
/// that asks for functions alone, of a name that is no option key, never
/// gives a variable, and what it gives is a function binding of that name.
pub proof fn law_kinds_do_not_mix(m: TableModel, name: Seq<char>, host: HostModel)
    requires
        valid(m),
    ensures
        match resolved(m, name, seq![SymType::Var], host) {
            ResolutionModel::Found(SymModel::Var(t)) => host.is_opt || exists|i: int|
                0 <= i < m.scopes.len() && lookup(#[trigger] m.scopes[i].vars, name) == Some(ValModel::Var(t)),
            ResolutionModel::Found(_) => false,
            ResolutionModel::Rehash => false,
            ResolutionModel::Missing => true,
        },
        !host.is_opt ==> match resolved(m, name, seq![SymType::Fn], host) {
            ResolutionModel::Found(SymModel::Fn(f)) => exists|i: int|
                0 <= i < m.scopes.len() && lookup(#[trigger] m.scopes[i].vars, name) == Some(ValModel::Fn(f)),
            ResolutionModel::Found(_) => false,
            ResolutionModel::Rehash => false,
            ResolutionModel::Missing => true,
        },
{
    let vars = seq![SymType::Var];
    let fns = seq![SymType::Fn];
    assert(vars[0] == SymType::Var);
    assert(fns[0] == SymType::Fn);
    assert(!vars.contains(SymType::Fn) && !vars.contains(SymType::Environment) && !vars.contains(SymType::Builtin) && !vars.contains(SymType::Binary));
    assert(!fns.contains(SymType::Var) && !fns.contains(SymType::Environment) && !fns.contains(SymType::Builtin) && !fns.contains(SymType::Binary));
    lemma_scoped_origin(m.scopes, name, vars, m.scopes.len() as int);
    lemma_scoped_origin(m.scopes, name, fns, m.scopes.len() as int);
}

/// Above the boundary of a function call the search for a holder of a name
/// ends at the boundary or above it.
proof fn lemma_innermost_above_boundary(scopes: Seq<ScopeModel>, name: Seq<char>, n: int, b: int)
    requires
        0 <= b < n <= scopes.len(),
        scopes[b].is_fn,
    ensures
        innermost(scopes, name, n) == -1 || b <= innermost(scopes, name, n) < n,
        (forall|i: int| b <= i < n ==> !holds(#[trigger] scopes[i].vars, name)) ==> innermost(scopes, name, n)
            == -1,
    decreases n,
{
    if n - 1 > b && !holds(scopes[n - 1].vars, name) && !scopes[n - 1].is_fn {
        lemma_innermost_above_boundary(scopes, name, n - 1, b);
    }
}

/// A `Default` write, or a function definition under `Default`, made inside
/// a function call stays inside it: with frame `b` the boundary of a call,
/// the frames below `b` are after the write what they were before, whatever
/// they hold under the name. Where no frame from `b` up holds the name, the
/// write goes to the top frame, which then binds the name to the text that
/// was written. Only a `Global` write reaches the caller from inside a call.
pub proof fn law_default_write_stays_in_function_call(
    m: TableModel,
    b: int,
    name: Seq<char>,
    text: Seq<char>,
    v: ValModel,
    is_opt: bool,
)
    requires
        valid(m),
        0 <= b < m.scopes.len(),
        m.scopes[b].is_fn,
    ensures
        b <= target(m, name, ScopeSpec::Default) < m.scopes.len(),
        assigned(m, name, text, ScopeSpec::Default, is_opt).scopes.take(b) == m.scopes.take(b),
        bound(m, name, v, ScopeSpec::Default).scopes.take(b) == m.scopes.take(b),
        (forall|i: int| b <= i < m.scopes.len() ==> !holds(#[trigger] m.scopes[i].vars, name)) ==> {
            &&& target(m, name, ScopeSpec::Default) == m.scopes.len() - 1
            &&& !is_opt && text.len() > 0 ==> lookup(
                assigned(m, name, text, ScopeSpec::Default, is_opt).scopes.last().vars,
                name,
            ) == Some(ValModel::Var(text))
        },
{
    let n = m.scopes.len() as int;
    lemma_innermost_above_boundary(m.scopes, name, n, b);
    let t = target(m, name, ScopeSpec::Default);
    assert(assigned(m, name, text, ScopeSpec::Default, is_opt).scopes.take(b) =~= m.scopes.take(b));
    assert(bound(m, name, v, ScopeSpec::Default).scopes.take(b) =~= m.scopes.take(b));
    lemma_stored(m.scopes[t].vars, name, ValModel::Var(text));
}

/// A `Global` write changes the global frame and no other.
pub proof fn law_global_write_changes_only_the_global_frame(
    m: TableModel,
    name: Seq<char>,
    text: Seq<char>,
    is_opt: bool,
)
    requires
        valid(m),
    ensures
        assigned(m, name, text, ScopeSpec::Global, is_opt).scopes.len() == m.scopes.len(),
        forall|i: int|
            1 <= i < m.scopes.len() ==> assigned(m, name, text, ScopeSpec::Global, is_opt).scopes[i]
                == m.scopes[i],
{
}

/// The completions of a prefix hold every match and none of them twice.
pub proof fn law_completions_are_distinct(m: TableModel, prefix: Seq<char>, kinds: Seq<SymType>)
    ensures
        completions(m, prefix, kinds).no_duplicates(),
        forall|t: Seq<char>| completions(m, prefix, kinds).contains(t) <==> gathered(m, prefix, kinds).contains(t),
{
    lemma_firsts(gathered(m, prefix, kinds));
}

/// A cache built from a listing holds no name twice.
pub proof fn lemma_rebuilt_distinct(entries: Seq<DirEntryModel>)
    ensures
        distinct(rebuilt(entries)),
    decreases entries.len(),
{
    if entries.len() > 0 {
        lemma_rebuilt_distinct(entries.drop_last());
        let e = entries.last();
        if e.is_dir == Some(false) && e.name.is_some() {
            lemma_stored(rebuilt(entries.drop_last()), e.name.unwrap(), e.path);
        }
    }
}

/// The frame that a write goes to is one of the table's.
pub proof fn lemma_target_in_range(m: TableModel, name: Seq<char>, sc: ScopeSpec)
    requires
        valid(m),
    ensures
        0 <= target(m, name, sc) < m.scopes.len(),
{
    lemma_innermost_in_range(m.scopes, name, m.scopes.len() as int);
}

/// The search for the frame that holds a name ends below `n`.
proof fn lemma_innermost_in_range(scopes: Seq<ScopeModel>, name: Seq<char>, n: int)
    ensures
        -1 <= innermost(scopes, name, n),
        n > 0 ==> innermost(scopes, name, n) < n,
        n <= 0 ==> innermost(scopes, name, n) == -1,
    decreases n,
{
    if n > 0 {
        lemma_innermost_in_range(scopes, name, n - 1);
    }
}

/// The table stays valid: it begins valid, and a push, a pop that leaves the
/// global frame, a write, a function definition and a rehash each keep it
/// so. There is always a bottom frame, and it alone is the global one.
pub proof fn law_valid_is_kept(
    m: TableModel,
    name: Seq<char>,
    text: Seq<char>,
    v: ValModel,
    sc: ScopeSpec,
    is_opt: bool,
    is_fn: bool,
    entries: Seq<DirEntryModel>,
)
    requires
        valid(m),
    ensures
        valid(initial()),
        valid(pushed(m, is_fn)),
        m.scopes.len() >= 2 ==> valid(popped(m)),
        valid(assigned(m, name, text, sc, is_opt)),
        valid(bound(m, name, v, sc)),
        valid(rehashed(m, entries)),
{
    lemma_rebuilt_distinct(entries);
    lemma_target_in_range(m, name, sc);
    let t = target(m, name, sc);
    lemma_stored(m.scopes[t].vars, name, v);
    lemma_stored(m.scopes[t].vars, name, ValModel::Var(text));
    lemma_dropped(m.scopes[t].vars, name);
    assert(valid(bound(m, name, v, sc)));
    assert(valid(bound(m, name, ValModel::Var(text), sc)));
    assert(valid(assigned(m, name, text, sc, is_opt)));
}

} // verus!
