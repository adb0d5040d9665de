//! The symbol table: a stack of binding frames, the cache of executables and
//! the registry of primitives, with the rules by which a name is written and
//! resolved.

use vstd::prelude::*;
use vstd::string::*;
use crate::builtins::{Builtin, BuiltinModel, registry};
use crate::dict::{distinct, dropped, holds, lookup, stored, Dict};
use crate::text::{clone_texts, dedup, firsts, lemma_texts_push, opt_text, opt_texts, starts_with, texts};

verus! {

/// The kinds of symbol that a name can resolve to.
#[derive(PartialEq, Eq, Structural, Copy, Clone, Debug)]
pub enum SymType {
    Binary,
    Builtin,
    Var,
    Environment,
    Fn,
}

/// Where a write goes.
#[derive(PartialEq, Eq, Structural, Copy, Clone, Debug)]
pub enum ScopeSpec {
    /// The top frame.
    Local,
    /// The global frame.
    Global,
    /// The environment of the process, past every frame.
    Environment,
    /// The innermost frame that holds the name, looking no further down than
    /// the frame of the function call that is running, else the top frame.
    Default,
}

/// A user-defined function: its parameters and the source lines of its body,
/// which are interpreted anew on every call.
pub struct Fn {
    pub name: String,
    pub inline: bool,
    pub args: Vec<String>,
    pub vararg: Option<String>,
    pub postargs: Option<Vec<String>>,
    pub lines: Vec<String>,
}

/// What a function definition holds, as plain sequences.
pub ghost struct FnModel {
    pub name: Seq<char>,
    pub inline: bool,
    pub args: Seq<Seq<char>>,
    pub vararg: Option<Seq<char>>,
    pub postargs: Option<Seq<Seq<char>>>,
    pub lines: Seq<Seq<char>>,
}

impl View for Fn {
    type V = FnModel;

    open spec fn view(&self) -> FnModel {
        FnModel {
            name: self.name@,
            inline: self.inline,
            args: texts(self.args@),
            vararg: opt_text(self.vararg),
            postargs: opt_texts(self.postargs),
            lines: texts(self.lines@),
        }
    }
}

impl Clone for Fn {
    fn clone(&self) -> (r: Self)
        ensures
            r@ == self@,
    {
        let vararg = match &self.vararg {
            Some(s) => Some(s.clone()),
            None => None,
        };
        let postargs = match &self.postargs {
            Some(v) => Some(clone_texts(v)),
            None => None,
        };
        Fn {
            name: self.name.clone(),
            inline: self.inline,
            args: clone_texts(&self.args),
            vararg,
            postargs,
            lines: clone_texts(&self.lines),
        }
    }
}

/// What a frame binds a name to.
pub enum Val {
    Var(String),
    Fn(Fn),
}

/// A binding, as plain sequences.
pub ghost enum ValModel {
    Var(Seq<char>),
    Fn(FnModel),
}

impl View for Val {
    type V = ValModel;

    open spec fn view(&self) -> ValModel {
        match self {
            Val::Var(s) => ValModel::Var(s@),
            Val::Fn(f) => ValModel::Fn(f@),
        }
    }
}

/// The outcome of a resolution.
pub enum Sym {
    /// An executable, by its path.
    Binary(String),
    Builtin(Builtin),
    Var(String),
    Environment(String),
    Fn(Fn),
}

/// A resolved symbol, as plain sequences.
pub ghost enum SymModel {
    Binary(Seq<char>),
    Builtin(BuiltinModel),
    Var(Seq<char>),
    Environment(Seq<char>),
    Fn(FnModel),
}

impl View for Sym {
    type V = SymModel;

    open spec fn view(&self) -> SymModel {
        match self {
            Sym::Binary(p) => SymModel::Binary(p@),
            Sym::Builtin(b) => SymModel::Builtin(b@),
            Sym::Var(s) => SymModel::Var(s@),
            Sym::Environment(s) => SymModel::Environment(s@),
            Sym::Fn(f) => SymModel::Fn(f@),
        }
    }
}

/// One frame of bindings. Variables and functions share its names.
pub struct Scope {
    vars: Dict<Val>,
    is_fn: bool,
    is_gl: bool,
}

/// A frame, as plain sequences.
pub ghost struct ScopeModel {
    pub vars: Seq<(Seq<char>, ValModel)>,
    /// The frame is the boundary of a function call.
    pub is_fn: bool,
    /// The frame is the global one.
    pub is_gl: bool,
}

impl View for Scope {
    type V = ScopeModel;

    closed spec fn view(&self) -> ScopeModel {
        ScopeModel { vars: self.vars@, is_fn: self.is_fn, is_gl: self.is_gl }
    }
}

/// What the process around the table says of one name: the option registry,
/// the environment and the file system are asked there, not here.
pub struct Host {
    /// The name is the key of a shell option.
    pub is_opt: bool,
    /// The option's current value, where the registry has one.
    pub opt: Option<String>,
    /// The value of the environment variable of that name, if it is set.
    pub env: Option<String>,
    /// The name, read as a path, leads to something on disk.
    pub on_disk: bool,
}

/// The host's answers, as plain sequences.
pub ghost struct HostModel {
    pub is_opt: bool,
    pub opt: Option<Seq<char>>,
    pub env: Option<Seq<char>>,
    pub on_disk: bool,
}

impl View for Host {
    type V = HostModel;

    open spec fn view(&self) -> HostModel {
        HostModel {
            is_opt: self.is_opt,
            opt: opt_text(self.opt),
            env: opt_text(self.env),
            on_disk: self.on_disk,
        }
    }
}

/// How a resolution ended.
pub enum Resolution {
    Found(Sym),
    /// Nothing was found, and the cache of executables may be stale: the
    /// caller rebuilds it and asks the cache once more.
    Rehash,
    Missing,
}

/// The end of a resolution, as plain sequences.
pub ghost enum ResolutionModel {
    Found(SymModel),
    Rehash,
    Missing,
}

impl View for Resolution {
    type V = ResolutionModel;

    open spec fn view(&self) -> ResolutionModel {
        match self {
            Resolution::Found(s) => ResolutionModel::Found(s@),
            Resolution::Rehash => ResolutionModel::Rehash,
            Resolution::Missing => ResolutionModel::Missing,
        }
    }
}

/// What is left for the caller to do after a write.
pub enum Effect {
    /// The name is an option key: the registry takes the value.
    SetOption(String, String),
    /// The value goes to the environment of the process.
    Export(String, String),
    /// The frames took the write.
    Nothing,
}

/// What is left after a write, as plain sequences.
pub ghost enum EffectModel {
    SetOption(Seq<char>, Seq<char>),
    Export(Seq<char>, Seq<char>),
    Nothing,
}

impl View for Effect {
    type V = EffectModel;

    open spec fn view(&self) -> EffectModel {
        match self {
            Effect::SetOption(k, v) => EffectModel::SetOption(k@, v@),
            Effect::Export(k, v) => EffectModel::Export(k@, v@),
            Effect::Nothing => EffectModel::Nothing,
        }
    }
}

/// One entry of a directory of the search path.
pub struct DirEntry {
    /// The entry's base name, where it is valid text.
    pub name: Option<String>,
    /// The entry's absolute path.
    pub path: String,
    /// Whether the entry is a directory; `None` where that could not be read.
    pub is_dir: Option<bool>,
}

/// A directory entry, as plain sequences.
pub ghost struct DirEntryModel {
    pub name: Option<Seq<char>>,
    pub path: Seq<char>,
    pub is_dir: Option<bool>,
}

impl View for DirEntry {
    type V = DirEntryModel;

    open spec fn view(&self) -> DirEntryModel {
        DirEntryModel { name: opt_text(self.name), path: self.path@, is_dir: self.is_dir }
    }
}

/// The entries of a listing, as plain sequences.
pub open spec fn listing(v: Seq<DirEntry>) -> Seq<DirEntryModel> {
    Seq::new(v.len(), |i: int| v[i]@)
}

/// The table of symbols of one interpreter session.
pub struct Symtable {
    bins: Dict<String>,
    builtins: Dict<Builtin>,
    scopes: Vec<Scope>,
}

/// The table, as plain sequences: each dictionary is the sequence of its
/// entries, each a name and what it stands for.
pub ghost struct TableModel {
    pub bins: Seq<(Seq<char>, Seq<char>)>,
    pub builtins: Seq<(Seq<char>, BuiltinModel)>,
    pub scopes: Seq<ScopeModel>,
}

impl View for Symtable {
    type V = TableModel;

    closed spec fn view(&self) -> TableModel {
        TableModel {
            bins: self.bins@,
            builtins: self.builtins@,
            scopes: Seq::new(self.scopes@.len(), |i: int| self.scopes@[i]@),
        }
    }
}

/// The frame that a new scope starts as.
pub open spec fn fresh(is_fn: bool, is_gl: bool) -> ScopeModel {
    ScopeModel { vars: Seq::empty(), is_fn, is_gl }
}

/// The table of a session before its first look at the search path: the
/// global frame alone, the registry of primitives, and no executable cached.
pub open spec fn initial() -> TableModel {
    TableModel { bins: Seq::empty(), builtins: registry(), scopes: seq![fresh(false, true)] }
}

/// A table is valid when it has its global frame at the bottom and nowhere
/// else, and no dictionary in it holds a name twice.
pub open spec fn valid(m: TableModel) -> bool {
    &&& m.scopes.len() >= 1
    &&& forall|i: int| 0 <= i < m.scopes.len() ==> distinct(#[trigger] m.scopes[i].vars)
    &&& forall|i: int| 0 <= i < m.scopes.len() ==> (#[trigger] m.scopes[i].is_gl == (i == 0))
    &&& distinct(m.bins)
    &&& m.builtins == registry()
}

/// The table with a new empty frame on top.
pub open spec fn pushed(m: TableModel, is_fn: bool) -> TableModel {
    TableModel { bins: m.bins, builtins: m.builtins, scopes: m.scopes.push(fresh(is_fn, false)) }
}

/// The table without its top frame.
pub open spec fn popped(m: TableModel) -> TableModel {
    TableModel { bins: m.bins, builtins: m.builtins, scopes: m.scopes.drop_last() }
}

/// The highest frame below `n` that holds `name` and that a write can reach
/// without leaving the function call it is made in, or -1. The search goes
/// down from frame `n - 1` and ends at the first frame that is the boundary
/// of a function call, which is the last one it looks at.
pub open spec fn innermost(scopes: Seq<ScopeModel>, name: Seq<char>, n: int) -> int
    decreases n,
{
    if n <= 0 {
        -1
    } else if holds(scopes[n - 1].vars, name) {
        n - 1
    } else if scopes[n - 1].is_fn {
        -1
    } else {
        innermost(scopes, name, n - 1)
    }
}

/// The frame that a write of `name` under `sc` goes to: the global frame,
/// the top frame, or, by default, the innermost frame that holds the name
/// and lies within the running function call, else the top frame.
pub open spec fn target(m: TableModel, name: Seq<char>, sc: ScopeSpec) -> int {
    match sc {
        ScopeSpec::Global => 0,
        ScopeSpec::Local => m.scopes.len() - 1,
        _ => {
            let i = innermost(m.scopes, name, m.scopes.len() as int);
            if i >= 0 {
                i
            } else {
                m.scopes.len() - 1
            }
        },
    }
}

/// The table with the bindings of frame `t` replaced.
pub open spec fn with_vars(m: TableModel, t: int, vars: Seq<(Seq<char>, ValModel)>) -> TableModel {
    TableModel {
        bins: m.bins,
        builtins: m.builtins,
        scopes: m.scopes.update(
            t,
            ScopeModel { vars, is_fn: m.scopes[t].is_fn, is_gl: m.scopes[t].is_gl },
        ),
    }
}

/// The table after `name` is bound to `v` in the frame that `sc` selects.
pub open spec fn bound(m: TableModel, name: Seq<char>, v: ValModel, sc: ScopeSpec) -> TableModel {
    let t = target(m, name, sc);
    with_vars(m, t, stored(m.scopes[t].vars, name, v))
}

/// The table after `name` is dropped from the frame that `sc` selects.
pub open spec fn unbound(m: TableModel, name: Seq<char>, sc: ScopeSpec) -> TableModel {
    let t = target(m, name, sc);
    with_vars(m, t, dropped(m.scopes[t].vars, name))
}

/// The table after a write of `text` to `name`: untouched where the name is
/// an option key or the write goes to the environment; without the binding
/// where the text is empty; with the variable bound otherwise.
pub open spec fn assigned(
    m: TableModel,
    name: Seq<char>,
    text: Seq<char>,
    sc: ScopeSpec,
    is_opt: bool,
) -> TableModel {
    if is_opt || sc == ScopeSpec::Environment {
        m
    } else if text.len() == 0 {
        unbound(m, name, sc)
    } else {
        bound(m, name, ValModel::Var(text), sc)
    }
}

/// What a write leaves for the caller to do.
pub open spec fn effect(name: Seq<char>, text: Seq<char>, sc: ScopeSpec, is_opt: bool) -> EffectModel {
    if is_opt {
        EffectModel::SetOption(name, text)
    } else if sc == ScopeSpec::Environment {
        EffectModel::Export(name, text)
    } else {
        EffectModel::Nothing
    }
}

/// The five kinds, which a resolution asks for when it names none.
pub open spec fn all_kinds() -> Seq<SymType> {
    seq![SymType::Var, SymType::Binary, SymType::Builtin, SymType::Environment, SymType::Fn]
}

/// The kinds that a completion asks for when it names none.
pub open spec fn completion_kinds() -> Seq<SymType> {
    seq![SymType::Var, SymType::Binary, SymType::Builtin, SymType::Environment]
}

/// The kinds that a resolution asks for.
pub open spec fn wanted(types: Option<Vec<SymType>>) -> Seq<SymType> {
    match types {
        Some(v) => v@,
        None => all_kinds(),
    }
}

/// The kinds that a completion asks for.
pub open spec fn wanted_prefix(types: Option<Vec<SymType>>) -> Seq<SymType> {
    match types {
        Some(v) => v@,
        None => completion_kinds(),
    }
}

/// The binding of `name` in the frames below `n`, the highest first, that is
/// of a kind asked for: a variable counts only where variables are asked for,
/// a function only where functions are.
pub open spec fn scoped(scopes: Seq<ScopeModel>, name: Seq<char>, kinds: Seq<SymType>, n: int) -> Option<SymModel>
    decreases n,
{
    if n <= 0 {
        None
    } else {
        let below = scoped(scopes, name, kinds, n - 1);
        match lookup(scopes[n - 1].vars, name) {
            Some(ValModel::Var(t)) => if kinds.contains(SymType::Var) {
                Some(SymModel::Var(t))
            } else {
                below
            },
            Some(ValModel::Fn(f)) => if kinds.contains(SymType::Fn) {
                Some(SymModel::Fn(f))
            } else {
                below
            },
            None => below,
        }
    }
}

/// What the cache of executables holds for `name`.
pub open spec fn cached(m: TableModel, name: Seq<char>) -> Option<SymModel> {
    match lookup(m.bins, name) {
        Some(p) => Some(SymModel::Binary(p)),
        None => None,
    }
}

/// What `name` resolves to among `kinds`, the first hit in this order: an
/// option, the frames from the top down, the environment, the primitives, the
/// cache of executables, the name as a path on disk.
pub open spec fn resolved(m: TableModel, name: Seq<char>, kinds: Seq<SymType>, host: HostModel) -> ResolutionModel {
    let in_scopes = kinds.contains(SymType::Var) || kinds.contains(SymType::Fn);
    if in_scopes && host.is_opt {
        match host.opt {
            Some(s) => ResolutionModel::Found(SymModel::Var(s)),
            None => ResolutionModel::Missing,
        }
    } else if in_scopes && scoped(m.scopes, name, kinds, m.scopes.len() as int).is_some() {
        ResolutionModel::Found(scoped(m.scopes, name, kinds, m.scopes.len() as int).unwrap())
    } else if kinds.contains(SymType::Environment) && host.env.is_some() {
        ResolutionModel::Found(SymModel::Environment(host.env.unwrap()))
    } else if kinds.contains(SymType::Builtin) && lookup(m.builtins, name).is_some() {
        ResolutionModel::Found(SymModel::Builtin(lookup(m.builtins, name).unwrap()))
    } else if kinds.contains(SymType::Binary) {
        if cached(m, name).is_some() {
            ResolutionModel::Found(cached(m, name).unwrap())
        } else if host.on_disk {
            ResolutionModel::Found(SymModel::Binary(name))
        } else {
            ResolutionModel::Rehash
        }
    } else {
        ResolutionModel::Missing
    }
}

/// The cache built from a listing: each entry that is known not to be a
/// directory and has a name is stored under it, a later one in place of an
/// earlier one of the same name.
pub open spec fn rebuilt(entries: Seq<DirEntryModel>) -> Seq<(Seq<char>, Seq<char>)>
    decreases entries.len(),
{
    if entries.len() == 0 {
        Seq::empty()
    } else {
        let before = rebuilt(entries.drop_last());
        let e = entries.last();
        if e.is_dir == Some(false) && e.name.is_some() {
            stored(before, e.name.unwrap(), e.path)
        } else {
            before
        }
    }
}

/// The table with its cache of executables replaced by what a listing gives.
pub open spec fn rehashed(m: TableModel, entries: Seq<DirEntryModel>) -> TableModel {
    TableModel { bins: rebuilt(entries), builtins: m.builtins, scopes: m.scopes }
}

/// The names of a dictionary that begin with `prefix`, in its order.
pub open spec fn names_matching<T>(d: Seq<(Seq<char>, T)>, prefix: Seq<char>) -> Seq<Seq<char>>
    decreases d.len(),
{
    if d.len() == 0 {
        Seq::empty()
    } else {
        let r = names_matching(d.drop_last(), prefix);
        if prefix.is_prefix_of(d.last().0) {
            r.push(d.last().0)
        } else {
            r
        }
    }
}

/// The values of the variables of a frame whose names begin with `prefix`,
/// in the frame's order. Functions are passed over.
pub open spec fn vars_matching(d: Seq<(Seq<char>, ValModel)>, prefix: Seq<char>) -> Seq<Seq<char>>
    decreases d.len(),
{
    if d.len() == 0 {
        Seq::empty()
    } else {
        let r = vars_matching(d.drop_last(), prefix);
        match d.last().1 {
            ValModel::Var(t) => if prefix.is_prefix_of(d.last().0) {
                r.push(t)
            } else {
                r
            },
            ValModel::Fn(_) => r,
        }
    }
}

/// What `vars_matching` gives for the frames from `n` upward, the highest
/// frame first.
pub open spec fn frames_matching(scopes: Seq<ScopeModel>, prefix: Seq<char>, n: int) -> Seq<Seq<char>>
    decreases scopes.len() - n,
{
    if n < 0 || n >= scopes.len() {
        Seq::empty()
    } else {
        frames_matching(scopes, prefix, n + 1) + vars_matching(scopes[n].vars, prefix)
    }
}

/// Every match of `prefix` among `kinds`: the values of the matching
/// variables, the names of the matching primitives, the names of the
/// matching cached executables.
pub open spec fn gathered(m: TableModel, prefix: Seq<char>, kinds: Seq<SymType>) -> Seq<Seq<char>> {
    let vars = if kinds.contains(SymType::Var) {
        frames_matching(m.scopes, prefix, 0)
    } else {
        Seq::empty()
    };
    let prims = if kinds.contains(SymType::Builtin) {
        names_matching(m.builtins, prefix)
    } else {
        Seq::empty()
    };
    let bins = if kinds.contains(SymType::Binary) {
        names_matching(m.bins, prefix)
    } else {
        Seq::empty()
    };
    vars + prims + bins
}

/// The completions of `prefix` among `kinds`: every match, each once.
pub open spec fn completions(m: TableModel, prefix: Seq<char>, kinds: Seq<SymType>) -> Seq<Seq<char>> {
    firsts(gathered(m, prefix, kinds))
}

/// Adds to `res` the names of `d` that begin with `prefix`.
fn push_names<V: View>(d: &Dict<V>, prefix: &str, res: &mut Vec<String>)
    requires
        d.wf(),
    ensures
        texts(final(res)@) == texts(old(res)@) + names_matching(d@, prefix@),
{
    let mut i: usize = 0;
    assert(texts(res@) =~= texts(old(res)@) + names_matching(d@.take(0), prefix@));
    while i < d.len()
        invariant
            d.wf(),
            i <= d@.len(),
            texts(res@) == texts(old(res)@) + names_matching(d@.take(i as int), prefix@),
        decreases d@.len() - i,
    {
        proof {
            assert(d@.take(i + 1).drop_last() =~= d@.take(i as int));
            assert(d@.take(i + 1).last() == d@[i as int]);
        }
        let name = d.name_at(i);
        if starts_with(name.as_str(), prefix) {
            let ghost before = res@;
            let copy = name.clone();
            res.push(copy);
            proof {
                lemma_texts_push(before, copy);
                assert(texts(res@) =~= texts(old(res)@) + names_matching(d@.take(i + 1), prefix@));
            }
        }
        i += 1;
    }
    assert(d@.take(d@.len() as int) =~= d@);
}

/// Adds to `res` the values of the variables of `d` whose names begin with
/// `prefix`.
fn push_vars(d: &Dict<Val>, prefix: &str, res: &mut Vec<String>)
    requires
        d.wf(),
    ensures
        texts(final(res)@) == texts(old(res)@) + vars_matching(d@, prefix@),
{
    let mut i: usize = 0;
    assert(texts(res@) =~= texts(old(res)@) + vars_matching(d@.take(0), prefix@));
    while i < d.len()
        invariant
            d.wf(),
            i <= d@.len(),
            texts(res@) == texts(old(res)@) + vars_matching(d@.take(i as int), prefix@),
        decreases d@.len() - i,
    {
        proof {
            assert(d@.take(i + 1).drop_last() =~= d@.take(i as int));
            assert(d@.take(i + 1).last() == d@[i as int]);
        }
        let name = d.name_at(i);
        if starts_with(name.as_str(), prefix) {
            match d.val_at(i) {
                Val::Var(v) => {
                    let ghost before = res@;
                    let copy = v.clone();
                    res.push(copy);
                    proof {
                        lemma_texts_push(before, copy);
                        assert(texts(res@) =~= texts(old(res)@) + vars_matching(d@.take(i + 1), prefix@));
                    }
                },
                Val::Fn(_) => {},
            }
        }
        i += 1;
    }
    assert(d@.take(d@.len() as int) =~= d@);
}

/// The fields of a text that colons separate: one more than it has colons,
/// empty ones included.
pub open spec fn split_colon(s: Seq<char>) -> Seq<Seq<char>>
    decreases s.len(),
{
    if s.len() == 0 {
        seq![Seq::empty()]
    } else {
        let r = split_colon(s.drop_last());
        if s.last() == ':' {
            r.push(Seq::empty())
        } else {
            r.drop_last().push(r.last().push(s.last()))
        }
    }
}

/// The search path that stands in where the variable is not set.
pub open spec fn default_path() -> Seq<char> {
    "/bin:/usr/bin"@
}

/// The directories of the search path: the fields of the search-path
/// variable, or of the default where it is not set.
pub fn search_dirs(path_var: Option<String>) -> (r: Vec<String>)
    ensures
        texts(r@) == split_colon(
            match path_var {
                Some(p) => p@,
                None => default_path(),
            },
        ),
{
    let s: String = match path_var {
        Some(p) => p,
        None => "/bin:/usr/bin".to_owned(),
    };
    let n = s.as_str().unicode_len();
    let mut r: Vec<String> = Vec::new();
    let mut start: usize = 0;
    let mut i: usize = 0;
    proof {
        assert(s@.subrange(0, 0) =~= Seq::<char>::empty());
        assert(s@.take(0).len() == 0);
        assert(texts(r@).push(s@.subrange(0, 0)) =~= seq![Seq::<char>::empty()]);
    }
    while i < n
        invariant
            start <= i <= n,
            n == s@.len(),
            texts(r@).push(s@.subrange(start as int, i as int)) == split_colon(s@.take(i as int)),
        decreases n - i,
    {
        proof {
            assert(s@.take(i + 1).drop_last() =~= s@.take(i as int));
            assert(s@.take(i + 1).last() == s@[i as int]);
        }
        let ghost done = texts(r@);
        let ghost field = s@.subrange(start as int, i as int);
        let c = s.as_str().get_char(i);
        if c == ':' {
            let ghost before = r@;
            let piece = s.as_str().substring_char(start, i).to_owned();
            r.push(piece);
            start = i + 1;
            proof {
                lemma_texts_push(before, piece);
                assert(s@.subrange(i + 1, i + 1) =~= Seq::<char>::empty());
            }
        } else {
            proof {
                assert(done.push(field).drop_last() =~= done);
                assert(field.push(c) =~= s@.subrange(start as int, i + 1));
            }
        }
        i += 1;
    }
    let ghost before = r@;
    let piece = s.as_str().substring_char(start, n).to_owned();
    r.push(piece);
    proof {
        lemma_texts_push(before, piece);
        assert(s@.take(n as int) =~= s@);
    }
    r
}

/// A symbol, if there is one, as plain sequences.
pub open spec fn opt_sym(r: Option<Sym>) -> Option<SymModel> {
    match r {
        Some(s) => Some(s@),
        None => None,
    }
}

/// What a resolution ends in when a miss is followed by one rehash from
/// `entries` and a second look at the cache.
pub open spec fn settled(
    m: TableModel,
    name: Seq<char>,
    kinds: Seq<SymType>,
    host: HostModel,
    entries: Seq<DirEntryModel>,
) -> Option<SymModel> {
    match resolved(m, name, kinds, host) {
        ResolutionModel::Found(s) => Some(s),
        ResolutionModel::Missing => None,
        ResolutionModel::Rehash => cached(rehashed(m, entries), name),
    }
}

/// The table after such a resolution: rehashed where everything missed and
/// executables were asked for, untouched otherwise.
pub open spec fn after_settled(
    m: TableModel,
    name: Seq<char>,
    kinds: Seq<SymType>,
    host: HostModel,
    entries: Seq<DirEntryModel>,
) -> TableModel {
    match resolved(m, name, kinds, host) {
        ResolutionModel::Rehash => rehashed(m, entries),
        _ => m,
    }
}

/// Whether `kinds` holds `t`.
pub fn has_kind(kinds: &Vec<SymType>, t: SymType) -> (r: bool)
    ensures
        r == kinds@.contains(t),
{
    let mut i: usize = 0;
    while i < kinds.len()
        invariant
            i <= kinds.len(),
            forall|k: int| 0 <= k < i ==> kinds@[k] != t,
        decreases kinds.len() - i,
    {
        if kinds[i] == t {
            return true;
        }
        i += 1;
    }
    false
}

impl Symtable {
    /// The table is valid and so is each dictionary in it.
    pub closed spec fn wf(&self) -> bool {
        &&& self.bins.wf()
        &&& self.builtins.wf()
        &&& forall|i: int| 0 <= i < self.scopes@.len() ==> (#[trigger] self.scopes@[i]).vars.wf()
        &&& valid(self@)
    }

    /// A well-formed table is a valid one.
    pub proof fn lemma_wf(&self)
        requires
            self.wf(),
        ensures
            valid(self@),
    {
    }

    /// The table of a new session: the global frame alone, the primitives,
    /// and the cache of executables built from `entries`, a listing of the
    /// search path's directories.
    pub fn new(entries: &Vec<DirEntry>) -> (st: Symtable)
        ensures
            st.wf(),
            st@ == rehashed(initial(), listing(entries@)),
    {
        let mut st = Symtable { bins: Dict::new(), builtins: Builtin::map(), scopes: Vec::new() };
        st.scopes.push(Scope { vars: Dict::new(), is_fn: false, is_gl: true });
        assert(st@.scopes =~= initial().scopes);
        st.hash_bins(entries);
        st
    }

    /// Puts a new empty frame on top.
    pub fn new_scope(&mut self, is_fn: bool)
        requires
            old(self).wf(),
        ensures
            final(self).wf(),
            final(self)@ == pushed(old(self)@, is_fn),
    {
        self.scopes.push(Scope { vars: Dict::new(), is_fn, is_gl: false });
        assert(self@.scopes =~= pushed(old(self)@, is_fn).scopes);
    }

    /// Takes the top frame away. The global frame stays: the caller pops only
    /// what it pushed.
    pub fn del_scope(&mut self)
        requires
            old(self).wf(),
            old(self)@.scopes.len() >= 2,
        ensures
            final(self).wf(),
            final(self)@ == popped(old(self)@),
    {
        self.scopes.pop();
        assert(self@.scopes =~= popped(old(self)@).scopes);
    }

    /// The number of frames.
    pub fn depth(&self) -> (n: usize)
        requires
            self.wf(),
        ensures
            n == self@.scopes.len(),
            n >= 1,
    {
        self.scopes.len()
    }

    /// The index of the frame that a write of `key` under `sc` goes to.
    pub fn scope_idx(&self, key: &str, sc: ScopeSpec) -> (idx: usize)
        requires
            self.wf(),
            sc != ScopeSpec::Environment,
        ensures
            idx == target(self@, key@, sc),
            idx < self@.scopes.len(),
    {
        match sc {
            ScopeSpec::Global => 0,
            ScopeSpec::Local => self.scopes.len() - 1,
            _ => {
                let len = self.scopes.len();
                let mut n: usize = len;
                while n > 0
                    invariant
                        self.wf(),
                        sc == ScopeSpec::Default,
                        n <= len,
                        len == self.scopes@.len(),
                        innermost(self@.scopes, key@, len as int) == innermost(self@.scopes, key@, n as int),
                    decreases n,
                {
                    assert(self@.scopes[n - 1] == self.scopes@[n - 1]@);
                    if self.scopes[n - 1].vars.find(key).is_some() {
                        return n - 1;
                    }
                    if self.scopes[n - 1].is_fn {
                        return len - 1;
                    }
                    n -= 1;
                }
                len - 1
            },
        }
    }

    /// Binds `key` to `val` in frame `idx`, or drops it where `val` is `None`.
    fn rebind(&mut self, idx: usize, key: &str, val: Option<Val>)
        requires
            old(self).wf(),
            idx < old(self)@.scopes.len(),
        ensures
            final(self).wf(),
            final(self)@ == with_vars(
                old(self)@,
                idx as int,
                match val {
                    Some(v) => stored(old(self)@.scopes[idx as int].vars, key@, v@),
                    None => dropped(old(self)@.scopes[idx as int].vars, key@),
                },
            ),
    {
        assert(self@.scopes[idx as int] == self.scopes@[idx as int]@);
        let ghost vars = match &val {
            Some(v) => stored(self@.scopes[idx as int].vars, key@, v@),
            None => dropped(self@.scopes[idx as int].vars, key@),
        };
        match val {
            Some(v) => self.scopes[idx].vars.insert(key.to_owned(), v),
            None => self.scopes[idx].vars.remove(key),
        }
        proof {
            let want = with_vars(old(self)@, idx as int, vars);
            assert forall|i: int| 0 <= i < self.scopes@.len() implies (#[trigger] self.scopes@[i]).vars.wf() by {
                if i != idx {
                    assert(self.scopes@[i] == old(self).scopes@[i]);
                }
            }
            assert forall|i: int| 0 <= i < self@.scopes.len() implies self@.scopes[i] == want.scopes[i] by {
                if i != idx {
                    assert(self.scopes@[i] == old(self).scopes@[i]);
                    assert(old(self)@.scopes[i] == old(self).scopes@[i]@);
                }
            }
            assert(self@.scopes =~= want.scopes);
            assert(distinct(self@.scopes[idx as int].vars)) by {
                self.scopes@[idx as int].vars.lemma_wf();
            }
            assert forall|i: int| 0 <= i < self@.scopes.len() implies distinct(#[trigger] self@.scopes[i].vars) by {
                if i != idx {
                    assert(self@.scopes[i] == old(self)@.scopes[i]);
                }
            }
        }
    }

    /// Binds `key` to the function `val` in the frame that `sc` selects, in
    /// place of whatever the name held there.
    pub fn set_fn(&mut self, key: &str, val: Fn, sc: ScopeSpec)
        requires
            old(self).wf(),
            sc != ScopeSpec::Environment,
        ensures
            final(self).wf(),
            final(self)@ == bound(old(self)@, key@, ValModel::Fn(val@), sc),
    {
        let idx = self.scope_idx(key, sc);
        self.rebind(idx, key, Some(Val::Fn(val)));
    }

    /// Writes `val` to `key` under `sc`. `is_opt` says whether the option
    /// registry knows the key. The frames change as `assigned` says; what is
    /// left for the caller, a write to the registry or to the environment, is
    /// handed back.
    pub fn set_scope(&mut self, key: &str, val: String, sc: ScopeSpec, is_opt: bool) -> (e: Effect)
        requires
            old(self).wf(),
        ensures
            final(self).wf(),
            final(self)@ == assigned(old(self)@, key@, val@, sc, is_opt),
            e@ == effect(key@, val@, sc, is_opt),
    {
        if is_opt {
            return Effect::SetOption(key.to_owned(), val);
        }
        if sc == ScopeSpec::Environment {
            return Effect::Export(key.to_owned(), val);
        }
        let idx = self.scope_idx(key, sc);
        if val.as_str().unicode_len() == 0 {
            self.rebind(idx, key, None);
        } else {
            self.rebind(idx, key, Some(Val::Var(val)));
        }
        Effect::Nothing
    }

    /// Writes `val` to `key` in the innermost frame of the running function
    /// call that holds it, else in the top frame.
    pub fn set(&mut self, key: &str, val: String, is_opt: bool) -> (e: Effect)
        requires
            old(self).wf(),
        ensures
            final(self).wf(),
            final(self)@ == assigned(old(self)@, key@, val@, ScopeSpec::Default, is_opt),
            e@ == effect(key@, val@, ScopeSpec::Default, is_opt),
    {
        self.set_scope(key, val, ScopeSpec::Default, is_opt)
    }

    /// Replaces the cache of executables by what a listing of the search
    /// path's directories gives.
    pub fn hash_bins(&mut self, entries: &Vec<DirEntry>)
        requires
            old(self).wf(),
        ensures
            final(self).wf(),
            final(self)@ == rehashed(old(self)@, listing(entries@)),
    {
        self.bins.clear();
        let mut i: usize = 0;
        while i < entries.len()
            invariant
                i <= entries.len(),
                self.bins.wf(),
                self.bins@ == rebuilt(listing(entries@).take(i as int)),
                self.builtins == old(self).builtins,
                self.scopes == old(self).scopes,
            decreases entries.len() - i,
        {
            proof {
                let l = listing(entries@);
                assert(l.take(i + 1).drop_last() =~= l.take(i as int));
                assert(l.take(i + 1).last() == entries@[i as int]@);
            }
            let e = &entries[i];
            match (&e.name, e.is_dir) {
                (Some(name), Some(false)) => {
                    self.bins.insert(name.clone(), e.path.clone());
                },
                _ => {},
            }
            i += 1;
        }
        proof {
            let l = listing(entries@);
            assert(l.take(l.len() as int) =~= l);
            self.bins.lemma_wf();
            assert(self@.scopes =~= old(self)@.scopes);
        }
    }

    /// What the cache of executables holds for `sym_n`: the second look that
    /// follows a rehash.
    pub fn resolve_cached(&self, sym_n: &str) -> (r: Option<Sym>)
        requires
            self.wf(),
        ensures
            match r {
                Some(s) => cached(self@, sym_n@) == Some(s@),
                None => cached(self@, sym_n@).is_none(),
            },
    {
        match self.bins.get(sym_n) {
            Some(p) => Some(Sym::Binary(p.clone())),
            None => None,
        }
    }

    /// Resolves `sym_n` among all five kinds.
    pub fn resolve(&self, sym_n: &str, host: &Host) -> (r: Resolution)
        requires
            self.wf(),
        ensures
            r@ == resolved(self@, sym_n@, all_kinds(), host@),
    {
        self.resolve_types(sym_n, None, host)
    }

    /// Resolves `sym_n` among the kinds in `types`, or among all five where
    /// `types` is `None`. The first hit wins, in the order that `resolved`
    /// gives; `host` holds what the option registry, the environment and the
    /// file system say of the name.
    pub fn resolve_types(&self, sym_n: &str, types: Option<Vec<SymType>>, host: &Host) -> (r: Resolution)
        requires
            self.wf(),
        ensures
            r@ == resolved(self@, sym_n@, wanted(types), host@),
    {
        let kinds = match types {
            Some(x) => x,
            None => vec![SymType::Var, SymType::Binary, SymType::Builtin, SymType::Environment, SymType::Fn],
        };
        assert(kinds@ =~= wanted(types));
        let want_var = has_kind(&kinds, SymType::Var);
        let want_fn = has_kind(&kinds, SymType::Fn);
        if want_var || want_fn {
            if host.is_opt {
                return match &host.opt {
                    Some(s) => Resolution::Found(Sym::Var(s.clone())),
                    None => Resolution::Missing,
                };
            }
            let len = self.scopes.len();
            let mut n: usize = len;
            while n > 0
                invariant
                    self.wf(),
                    n <= len,
                    len == self.scopes@.len(),
                    !host.is_opt,
                    kinds@ == wanted(types),
                    want_var == kinds@.contains(SymType::Var),
                    want_fn == kinds@.contains(SymType::Fn),
                    scoped(self@.scopes, sym_n@, kinds@, len as int) == scoped(self@.scopes, sym_n@, kinds@, n as int),
                decreases n,
            {
                assert(self@.scopes[n - 1] == self.scopes@[n - 1]@);
                match self.scopes[n - 1].vars.get(sym_n) {
                    Some(Val::Var(v)) => {
                        if want_var {
                            return Resolution::Found(Sym::Var(v.clone()));
                        }
                    },
                    Some(Val::Fn(f)) => {
                        if want_fn {
                            return Resolution::Found(Sym::Fn(f.clone()));
                        }
                    },
                    None => {},
                }
                n -= 1;
            }
        }
        if has_kind(&kinds, SymType::Environment) {
            match &host.env {
                Some(e) => {
                    return Resolution::Found(Sym::Environment(e.clone()));
                },
                None => {},
            }
        }
        if has_kind(&kinds, SymType::Builtin) {
            match self.builtins.get(sym_n) {
                Some(b) => {
                    return Resolution::Found(Sym::Builtin(*b));
                },
                None => {},
            }
        }
        if has_kind(&kinds, SymType::Binary) {
            match self.bins.get(sym_n) {
                Some(p) => {
                    return Resolution::Found(Sym::Binary(p.clone()));
                },
                None => {},
            }
            if host.on_disk {
                return Resolution::Found(Sym::Binary(sym_n.to_owned()));
            }
            return Resolution::Rehash;
        }
        Resolution::Missing
    }

    /// The completions of `sym_n` among variables, executables and
    /// primitives.
    pub fn prefix_resolve(&self, sym_n: &str) -> (res: Vec<String>)
        requires
            self.wf(),
        ensures
            texts(res@) == completions(self@, sym_n@, completion_kinds()),
    {
        self.prefix_resolve_types(sym_n, None)
    }

    /// The completions of `sym_n` among the kinds in `types`: the values of
    /// the variables whose names begin with it, from the top frame down, then
    /// the names of the primitives, then those of the cached executables that
    /// do; each text once. The cache is taken as it is.
    pub fn prefix_resolve_types(&self, sym_n: &str, types: Option<Vec<SymType>>) -> (res: Vec<String>)
        requires
            self.wf(),
        ensures
            texts(res@) == completions(self@, sym_n@, wanted_prefix(types)),
    {
        let kinds = match types {
            Some(x) => x,
            None => vec![SymType::Var, SymType::Binary, SymType::Builtin, SymType::Environment],
        };
        assert(kinds@ =~= wanted_prefix(types));
        let mut res: Vec<String> = Vec::new();
        assert(texts(res@) =~= Seq::<Seq<char>>::empty());
        if has_kind(&kinds, SymType::Var) {
            let len = self.scopes.len();
            let mut n: usize = len;
            while n > 0
                invariant
                    self.wf(),
                    n <= len,
                    len == self.scopes@.len(),
                    texts(res@) == frames_matching(self@.scopes, sym_n@, n as int),
                decreases n,
            {
                assert(self@.scopes[n - 1] == self.scopes@[n - 1]@);
                push_vars(&self.scopes[n - 1].vars, sym_n, &mut res);
                n -= 1;
            }
        }
        if has_kind(&kinds, SymType::Builtin) {
            push_names(&self.builtins, sym_n, &mut res);
        }
        if has_kind(&kinds, SymType::Binary) {
            push_names(&self.bins, sym_n, &mut res);
        }
        assert(texts(res@) =~= gathered(self@, sym_n@, kinds@));
        dedup(res)
    }

    /// Resolves `sym_n` to the end: where `resolve_types` asks for a rehash,
    /// the cache is rebuilt from `entries`, a listing of the search path as
    /// it is now, and asked once more. Only then is the name missing.
    pub fn resolve_settled(
        &mut self,
        sym_n: &str,
        types: Option<Vec<SymType>>,
        host: &Host,
        entries: &Vec<DirEntry>,
    ) -> (r: Option<Sym>)
        requires
            old(self).wf(),
        ensures
            final(self).wf(),
            opt_sym(r) == settled(old(self)@, sym_n@, wanted(types), host@, listing(entries@)),
            final(self)@ == after_settled(old(self)@, sym_n@, wanted(types), host@, listing(entries@)),
    {
        match self.resolve_types(sym_n, types, host) {
            Resolution::Found(s) => Some(s),
            Resolution::Missing => None,
            Resolution::Rehash => {
                self.hash_bins(entries);
                self.resolve_cached(sym_n)
            },
        }
    }

    /// Whether a resolution of `sym_n` would end in a rehash, so that
    /// `resolve_settled` needs a listing of the search path.
    pub fn needs_listing(&self, sym_n: &str, types: Option<Vec<SymType>>, host: &Host) -> (r: bool)
        requires
            self.wf(),
        ensures
            r == (resolved(self@, sym_n@, wanted(types), host@) is Rehash),
    {
        match self.resolve_types(sym_n, types, host) {
            Resolution::Rehash => true,
            _ => false,
        }
    }

    /// Whether the top frame is the boundary of a function call.
    pub fn in_fn_frame(&self) -> (r: bool)
        requires
            self.wf(),
        ensures
            r == self@.scopes.last().is_fn,
    {
        assert(self@.scopes.last() == self.scopes@[self.scopes@.len() - 1]@);
        self.scopes[self.scopes.len() - 1].is_fn
    }
}

} // verus!
