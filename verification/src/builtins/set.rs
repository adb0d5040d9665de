//! The `set` primitive: scope flags, target names, and a value or a function
//! definition.

use vstd::prelude::*;
use vstd::string::*;
use crate::args::{flat, flatten, models, Arg, ArgModel, Redir};
use crate::sym::{
    assigned, bound, effect, Effect, EffectModel, Fn, FnModel, ScopeSpec, Symtable, TableModel,
    ValModel,
};
use crate::text::{clone_texts, contains_text, join_spaced, lemma_texts_push, spaced, starts_with, str_eq, texts};

verus! {

/// A flag argument is text that begins with a dash.
pub open spec fn is_flag(a: ArgModel) -> bool {
    match a {
        ArgModel::Str(s) => seq!['-'].is_prefix_of(s),
        _ => false,
    }
}

/// The end of the run of flag arguments that begins at `i`.
pub open spec fn flags_end(args: Seq<ArgModel>, i: int) -> int
    decreases args.len() - i,
{
    if 0 <= i < args.len() && is_flag(args[i]) {
        flags_end(args, i + 1)
    } else {
        i
    }
}

/// The scope after one flag letter: `l`, `g` and `e` select, any other
/// letter changes nothing.
pub open spec fn pick(cur: ScopeSpec, c: char) -> ScopeSpec {
    if c == 'l' {
        ScopeSpec::Local
    } else if c == 'g' {
        ScopeSpec::Global
    } else if c == 'e' {
        ScopeSpec::Environment
    } else {
        cur
    }
}

/// The scope after the letters of one flag below position `n`; the dash at
/// the front does not count.
pub open spec fn flag_spec(cur: ScopeSpec, text: Seq<char>, n: int) -> ScopeSpec
    decreases n,
{
    if n <= 1 {
        cur
    } else {
        pick(flag_spec(cur, text, n - 1), text[n - 1])
    }
}

/// The scope that the first `n` arguments select, the last letter winning.
pub open spec fn flags_spec(args: Seq<ArgModel>, n: int) -> ScopeSpec
    decreases n,
{
    if n <= 0 {
        ScopeSpec::Default
    } else {
        match args[n - 1] {
            ArgModel::Str(s) => flag_spec(flags_spec(args, n - 1), s, s.len() as int),
            _ => flags_spec(args, n - 1),
        }
    }
}

/// The argument is the text `=`.
pub open spec fn is_eq(a: ArgModel) -> bool {
    a == ArgModel::Str(seq!['='])
}

/// The position of the first `=` at or after `i`, or the length.
pub open spec fn keys_end(args: Seq<ArgModel>, i: int) -> int
    decreases args.len() - i,
{
    if 0 <= i < args.len() && !is_eq(args[i]) {
        keys_end(args, i + 1)
    } else {
        i
    }
}

/// What is left of the arguments once the target names and the `=` that
/// ends them are taken off.
pub open spec fn after_keys(args: Seq<ArgModel>) -> Seq<ArgModel> {
    let e = keys_end(args, 0);
    if e < args.len() {
        args.skip(e + 1)
    } else {
        Seq::empty()
    }
}

/// The characters that a target name may not hold.
pub open spec fn bad_char(c: char) -> bool {
    c == '?' || c == '!' || c == ' ' || c == '{' || c == '}' || c == '(' || c == ')'
}

/// A target name is valid when it holds none of them.
pub open spec fn valid_key(k: Seq<char>) -> bool {
    forall|i: int| 0 <= i < k.len() ==> !bad_char(#[trigger] k[i])
}

/// The valid names among `keys`, in order.
pub open spec fn valid_keys(keys: Seq<Seq<char>>) -> Seq<Seq<char>>
    decreases keys.len(),
{
    if keys.len() == 0 {
        Seq::empty()
    } else {
        let r = valid_keys(keys.drop_last());
        if valid_key(keys.last()) {
            r.push(keys.last())
        } else {
            r
        }
    }
}

/// The function that a definition binds to `name`.
pub open spec fn definition(name: Seq<char>, params: Seq<Seq<char>>, lines: Seq<Seq<char>>) -> FnModel {
    FnModel { name, inline: false, args: params, vararg: None, postargs: None, lines }
}

/// The table after the first `n` of `keys` are each bound to the function.
pub open spec fn defined(
    m: TableModel,
    keys: Seq<Seq<char>>,
    params: Seq<Seq<char>>,
    lines: Seq<Seq<char>>,
    sc: ScopeSpec,
    n: int,
) -> TableModel
    decreases n,
{
    if n <= 0 {
        m
    } else {
        bound(
            defined(m, keys, params, lines, sc, n - 1),
            keys[n - 1],
            ValModel::Fn(definition(keys[n - 1], params, lines)),
            sc,
        )
    }
}

/// The table after `val` is written to the first `n` of `keys`. A key that
/// `opts` holds is an option key.
pub open spec fn assigned_all(
    m: TableModel,
    keys: Seq<Seq<char>>,
    val: Seq<char>,
    sc: ScopeSpec,
    opts: Seq<Seq<char>>,
    n: int,
) -> TableModel
    decreases n,
{
    if n <= 0 {
        m
    } else {
        assigned(assigned_all(m, keys, val, sc, opts, n - 1), keys[n - 1], val, sc, opts.contains(keys[n - 1]))
    }
}

/// What the writes of `val` to the first `n` of `keys` leave to the caller.
pub open spec fn effects_all(
    keys: Seq<Seq<char>>,
    val: Seq<char>,
    sc: ScopeSpec,
    opts: Seq<Seq<char>>,
    n: int,
) -> Seq<EffectModel>
    decreases n,
{
    if n <= 0 {
        Seq::empty()
    } else {
        effects_all(keys, val, sc, opts, n - 1).push(effect(keys[n - 1], val, sc, opts.contains(keys[n - 1])))
    }
}

/// What follows `fn` does not end in a block.
pub open spec fn no_block(av: Seq<ArgModel>) -> bool {
    av.len() == 0 || !(av.last() is Bl)
}

/// What follows `fn` does not define a function: the block at the end is
/// missing, or the scope is the environment, which holds no functions.
pub open spec fn fn_refused(av: Seq<ArgModel>, sc: ScopeSpec) -> bool {
    no_block(av) || sc == ScopeSpec::Environment
}

/// What `set` has to say of an invocation that it does not take as it is.
pub enum Warning {
    /// A flag letter selects a scope where an earlier one already did; the
    /// later one wins.
    ScopeConflict,
    /// A flag letter that selects no scope; it is passed over.
    UnknownFlag(char),
    /// A target name with a character that names may not hold; it is left
    /// out.
    BadKey(String),
    /// No `=` ends the target names.
    NoEquals,
    /// What follows `fn` does not end in the block of the function's body.
    NoBlock,
    /// A function is to be defined in the environment, which holds none.
    EnvironmentFn,
    /// A redirection alone was given; nothing is set for it.
    Redirection,
}

/// A warning, as plain sequences.
pub ghost enum WarningModel {
    ScopeConflict,
    UnknownFlag(char),
    BadKey(Seq<char>),
    NoEquals,
    NoBlock,
    EnvironmentFn,
    Redirection,
}

impl View for Warning {
    type V = WarningModel;

    open spec fn view(&self) -> WarningModel {
        match self {
            Warning::ScopeConflict => WarningModel::ScopeConflict,
            Warning::UnknownFlag(c) => WarningModel::UnknownFlag(*c),
            Warning::BadKey(k) => WarningModel::BadKey(k@),
            Warning::NoEquals => WarningModel::NoEquals,
            Warning::NoBlock => WarningModel::NoBlock,
            Warning::EnvironmentFn => WarningModel::EnvironmentFn,
            Warning::Redirection => WarningModel::Redirection,
        }
    }
}

/// The warnings of a sequence, as plain sequences.
pub open spec fn warning_models(v: Seq<Warning>) -> Seq<WarningModel> {
    Seq::new(v.len(), |i: int| v[i]@)
}

/// What one flag letter gives rise to when `cur` is selected so far.
pub open spec fn letter_notes(cur: ScopeSpec, c: char) -> Seq<WarningModel> {
    if c == 'l' || c == 'g' || c == 'e' {
        if cur != ScopeSpec::Default {
            seq![WarningModel::ScopeConflict]
        } else {
            Seq::empty()
        }
    } else {
        seq![WarningModel::UnknownFlag(c)]
    }
}

/// The warnings for the letters of one flag below position `n`.
pub open spec fn flag_notes(cur: ScopeSpec, text: Seq<char>, n: int) -> Seq<WarningModel>
    decreases n,
{
    if n <= 1 {
        Seq::empty()
    } else {
        flag_notes(cur, text, n - 1) + letter_notes(flag_spec(cur, text, n - 1), text[n - 1])
    }
}

/// The warnings for the flags among the first `n` arguments.
pub open spec fn flags_notes(args: Seq<ArgModel>, n: int) -> Seq<WarningModel>
    decreases n,
{
    if n <= 0 {
        Seq::empty()
    } else {
        match args[n - 1] {
            ArgModel::Str(s) => flags_notes(args, n - 1) + flag_notes(flags_spec(args, n - 1), s, s.len() as int),
            _ => flags_notes(args, n - 1),
        }
    }
}

/// One warning for each name that is not valid, in order.
pub open spec fn key_notes(keys: Seq<Seq<char>>) -> Seq<WarningModel>
    decreases keys.len(),
{
    if keys.len() == 0 {
        Seq::empty()
    } else {
        let r = key_notes(keys.drop_last());
        if valid_key(keys.last()) {
            r
        } else {
            r.push(WarningModel::BadKey(keys.last()))
        }
    }
}

/// The warnings of an invocation. For a redirection alone, that nothing is
/// set. Otherwise those of its flags, then either that `=` is missing, or
/// those of its names and, last, why a function definition is refused: for
/// want of a block, or else for the environment as its scope.
pub open spec fn warnings_of(args: Seq<ArgModel>) -> Seq<WarningModel> {
    if args.len() == 1 && args[0] is Rd {
        seq![WarningModel::Redirection]
    } else {
        let k = flags_end(args, 0);
        let sc = flags_spec(args, k);
        let rest = args.skip(k);
        let e = keys_end(rest, 0);
        if e >= rest.len() {
            flags_notes(args, k).push(WarningModel::NoEquals)
        } else {
            let named = flags_notes(args, k) + key_notes(flat(rest.take(e)));
            let vals = rest.skip(e + 1);
            if vals.len() > 0 && vals[0] == ArgModel::Str(seq!['f', 'n']) {
                if no_block(vals.skip(1)) {
                    named.push(WarningModel::NoBlock)
                } else if sc == ScopeSpec::Environment {
                    named.push(WarningModel::EnvironmentFn)
                } else {
                    named
                }
            } else {
                named
            }
        }
    }
}

/// What an invocation of `set` asks for.
pub ghost enum PlanModel {
    /// A redirection alone.
    Redirect,
    /// A malformed invocation.
    Refuse,
    /// A function definition for each key.
    Define { keys: Seq<Seq<char>>, params: Seq<Seq<char>>, lines: Seq<Seq<char>>, sc: ScopeSpec },
    /// One value for each key.
    Assign { keys: Seq<Seq<char>>, val: Seq<char>, sc: ScopeSpec },
}

/// Reads an invocation: flags, then names up to `=`, then either `fn`,
/// parameters and a block, or the tokens of the value.
pub open spec fn plan_of(args: Seq<ArgModel>) -> PlanModel {
    if args.len() == 1 && args[0] is Rd {
        PlanModel::Redirect
    } else {
        let k = flags_end(args, 0);
        let sc = flags_spec(args, k);
        let rest = args.skip(k);
        let e = keys_end(rest, 0);
        if e >= rest.len() {
            PlanModel::Refuse
        } else {
            let keys = valid_keys(flat(rest.take(e)));
            let vals = rest.skip(e + 1);
            if vals.len() > 0 && vals[0] == ArgModel::Str(seq!['f', 'n']) {
                let av = vals.skip(1);
                if fn_refused(av, sc) {
                    PlanModel::Refuse
                } else {
                    PlanModel::Define { keys, params: flat(av.drop_last()), lines: av.last()->Bl_0, sc }
                }
            } else {
                PlanModel::Assign { keys, val: spaced(flat(vals)), sc }
            }
        }
    }
}

/// The table after an invocation.
pub open spec fn after_plan(m: TableModel, plan: PlanModel, opts: Seq<Seq<char>>) -> TableModel {
    match plan {
        PlanModel::Define { keys, params, lines, sc } => defined(m, keys, params, lines, sc, keys.len() as int),
        PlanModel::Assign { keys, val, sc } => assigned_all(m, keys, val, sc, opts, keys.len() as int),
        _ => m,
    }
}

/// The status of an invocation, before what it leaves to the caller is done.
pub open spec fn status_of(plan: PlanModel) -> int {
    match plan {
        PlanModel::Refuse => 2,
        _ => 0,
    }
}

/// What an invocation leaves to the caller, in the order of the keys.
pub open spec fn effects_of(plan: PlanModel, opts: Seq<Seq<char>>) -> Seq<EffectModel> {
    match plan {
        PlanModel::Assign { keys, val, sc } => effects_all(keys, val, sc, opts, keys.len() as int),
        _ => Seq::empty(),
    }
}

/// The effects of a sequence, as plain sequences.
pub open spec fn effect_models(v: Seq<Effect>) -> Seq<EffectModel> {
    Seq::new(v.len(), |i: int| v[i]@)
}

/// How an invocation of `set` ended: its status, the writes to the option
/// registry and to the environment that the caller is to make, and the
/// warnings that it is to show.
pub struct SetOutcome {
    pub status: i32,
    pub effects: Vec<Effect>,
    pub warnings: Vec<Warning>,
}

/// Setting a redirection is not provided: nothing happens, and the status
/// is 0.
pub fn rd_set(_rd: Redir) -> (r: i32)
    ensures
        r == 0,
{
    0
}

/// Whether the argument is a flag.
fn is_flag_arg(a: &Arg) -> (r: bool)
    ensures
        r == is_flag(a@),
{
    proof {
        reveal_strlit("-");
        assert("-"@ =~= seq!['-']);
    }
    match a {
        Arg::Str(s) => starts_with(s.as_str(), "-"),
        _ => false,
    }
}

/// Whether the argument is the text `=`.
fn is_eq_arg(a: &Arg) -> (r: bool)
    ensures
        r == is_eq(a@),
{
    proof {
        reveal_strlit("=");
        assert("="@ =~= seq!['=']);
    }
    match a {
        Arg::Str(s) => str_eq(s.as_str(), "="),
        _ => false,
    }
}

/// Whether the argument is the text `fn`.
fn is_fn_arg(a: &Arg) -> (r: bool)
    ensures
        r == (a@ == ArgModel::Str(seq!['f', 'n'])),
{
    proof {
        reveal_strlit("fn");
        assert("fn"@ =~= seq!['f', 'n']);
    }
    match a {
        Arg::Str(s) => str_eq(s.as_str(), "fn"),
        _ => false,
    }
}

/// Takes the flags off the front of `av` and gives the scope they select.
pub fn set_spec(av: &mut Vec<Arg>) -> (ret: ScopeSpec)
    ensures
        ret == flags_spec(models(old(av)@), flags_end(models(old(av)@), 0)),
        models(final(av)@) == models(old(av)@).skip(flags_end(models(old(av)@), 0)),
{
    let mut ret = ScopeSpec::Default;
    let ghost all = models(av@);
    let ghost mut k: int = 0;
    assert(models(av@) =~= all.skip(0));
    while av.len() > 0 && is_flag_arg(&av[0])
        invariant
            all == models(old(av)@),
            0 <= k <= all.len(),
            models(av@) == all.skip(k),
            flags_end(all, 0) == flags_end(all, k),
            ret == flags_spec(all, k),
        decreases av.len(),
    {
        assert(models(av@).len() == av@.len());
        assert(models(av@)[0] == av@[0]@);
        assert(all.skip(k)[0] == all[k]);
        let ghost before = av@;
        let s = av.remove(0).unwrap_str();
        proof {
            assert forall|j: int| 0 <= j < av@.len() implies models(av@)[j] == all.skip(k + 1)[j] by {
                assert(av@[j] == before[j + 1]);
                assert(models(before)[j + 1] == before[j + 1]@);
            }
            assert(models(av@) =~= all.skip(k + 1));
        }
        let n = s.as_str().unicode_len();
        let mut j: usize = 1;
        let ghost start = ret;
        while j < n
            invariant
                1 <= j,
                n == s@.len(),
                n >= 1 ==> j <= n,
                ret == flag_spec(start, s@, j as int),
            decreases n - j,
        {
            let c = s.as_str().get_char(j);
            if c == 'l' {
                ret = ScopeSpec::Local;
            } else if c == 'g' {
                ret = ScopeSpec::Global;
            } else if c == 'e' {
                ret = ScopeSpec::Environment;
            }
            j += 1;
        }
        proof {
            assert(seq!['-'].is_prefix_of(s@));
            assert(n >= 1);
            k = k + 1;
        }
    }
    proof {
        assert(models(av@).len() == av@.len());
        if av.len() > 0 {
            assert(models(av@)[0] == av@[0]@);
            assert(all.skip(k)[0] == all[k]);
        } else {
            assert(all.skip(k).len() == 0);
        }
    }
    ret
}

/// The position of the first `=` among the arguments, or their number.
pub fn eq_index(av: &Vec<Arg>) -> (r: usize)
    ensures
        r == keys_end(models(av@), 0),
        r <= av.len(),
{
    let mut i: usize = 0;
    while i < av.len() && !is_eq_arg(&av[i])
        invariant
            i <= av.len(),
            keys_end(models(av@), 0) == keys_end(models(av@), i as int),
        decreases av.len() - i,
    {
        i += 1;
    }
    i
}

/// Takes the target names off the front of `av`, with the `=` that ends
/// them, and gives their text tokens.
pub fn set_keys(av: &mut Vec<Arg>) -> (ret: Vec<String>)
    ensures
        texts(ret@) == flat(models(old(av)@).take(keys_end(models(old(av)@), 0))),
        models(final(av)@) == after_keys(models(old(av)@)),
{
    let e = eq_index(av);
    let ret = flatten(av, 0, e);
    let ghost all = models(av@);
    assert(all.subrange(0, e as int) =~= all.take(e as int));
    let mut i: usize = 0;
    let stop: usize = if e < av.len() {
        e + 1
    } else {
        e
    };
    assert(models(av@) =~= all.skip(0));
    while i < stop
        invariant
            i <= stop,
            stop <= all.len(),
            models(av@) == all.skip(i as int),
        decreases stop - i,
    {
        assert(models(av@).len() == av@.len());
        let ghost before = av@;
        av.remove(0);
        proof {
            assert forall|j: int| 0 <= j < av@.len() implies models(av@)[j] == all.skip(i + 1)[j] by {
                assert(av@[j] == before[j + 1]);
                assert(models(before)[j + 1] == before[j + 1]@);
            }
            assert(models(av@) =~= all.skip(i + 1));
        }
        i += 1;
    }
    assert(all.skip(stop as int) =~= after_keys(all));
    ret
}

/// Whether `k` holds no character that a name may not hold.
pub fn key_ok(k: &str) -> (r: bool)
    ensures
        r == valid_key(k@),
{
    let n = k.unicode_len();
    let mut i: usize = 0;
    while i < n
        invariant
            i <= n,
            n == k@.len(),
            forall|j: int| 0 <= j < i ==> !bad_char(#[trigger] k@[j]),
        decreases n - i,
    {
        let c = k.get_char(i);
        if c == '?' || c == '!' || c == ' ' || c == '{' || c == '}' || c == '(' || c == ')' {
            return false;
        }
        i += 1;
    }
    true
}

/// The valid names among `keys`.
pub fn filter_keys(keys: Vec<String>) -> (r: Vec<String>)
    ensures
        texts(r@) == valid_keys(texts(keys@)),
{
    let mut r: Vec<String> = Vec::new();
    let mut i: usize = 0;
    assert(texts(r@) =~= valid_keys(texts(keys@).take(0)));
    while i < keys.len()
        invariant
            i <= keys.len(),
            texts(r@) == valid_keys(texts(keys@).take(i as int)),
        decreases keys.len() - i,
    {
        proof {
            let t = texts(keys@);
            assert(t.take(i + 1).drop_last() =~= t.take(i as int));
            assert(t.take(i + 1).last() == keys@[i as int]@);
        }
        if key_ok(keys[i].as_str()) {
            let ghost before = r@;
            let copy = keys[i].clone();
            r.push(copy);
            proof {
                lemma_texts_push(before, copy);
            }
        }
        i += 1;
    }
    proof {
        let t = texts(keys@);
        assert(t.take(t.len() as int) =~= t);
    }
    r
}

/// Defines a function under each name of `kv`. `av` holds what follows `fn`:
/// the parameter names and, last, the block of the body. Without the block,
/// or for the environment as scope, nothing is defined and the status is 2.
pub fn fn_set(st: &mut Symtable, kv: Vec<String>, av: Vec<Arg>, spec: ScopeSpec) -> (r: i32)
    requires
        old(st).wf(),
    ensures
        final(st).wf(),
        fn_refused(models(av@), spec) ==> r == 2 && final(st)@ == old(st)@,
        !fn_refused(models(av@), spec) ==> r == 0 && final(st)@ == defined(
            old(st)@,
            texts(kv@),
            flat(models(av@).drop_last()),
            models(av@).last()->Bl_0,
            spec,
            kv@.len() as int,
        ),
{
    let ghost m = models(av@);
    if av.len() == 0 {
        return 2;
    }
    assert(m.last() == av@[av.len() - 1]@);
    if !av[av.len() - 1].is_bl() || spec == ScopeSpec::Environment {
        return 2;
    }
    let fn_args = flatten(&av, 0, av.len() - 1);
    assert(m.subrange(0, av.len() - 1) =~= m.drop_last());
    let mut av = av;
    let last = av.pop();
    let exec_bl = match last {
        Some(a) => a.unwrap_bl(),
        None => Vec::new(),
    };
    let mut i: usize = 0;
    while i < kv.len()
        invariant
            i <= kv.len(),
            st.wf(),
            spec != ScopeSpec::Environment,
            st@ == defined(old(st)@, texts(kv@), texts(fn_args@), texts(exec_bl@), spec, i as int),
        decreases kv.len() - i,
    {
        let def = Fn {
            name: kv[i].clone(),
            inline: false,
            args: clone_texts(&fn_args),
            vararg: None,
            postargs: None,
            lines: clone_texts(&exec_bl),
        };
        assert(def@ == definition(texts(kv@)[i as int], texts(fn_args@), texts(exec_bl@)));
        st.set_fn(kv[i].as_str(), def, spec);
        i += 1;
    }
    0
}

/// Adds the warnings for the flags at the front of `av` to `out`.
pub fn flag_warnings(av: &Vec<Arg>, out: &mut Vec<Warning>)
    ensures
        warning_models(final(out)@) == warning_models(old(out)@) + flags_notes(
            models(av@),
            flags_end(models(av@), 0),
        ),
{
    let ghost all = models(av@);
    let ghost base = warning_models(out@);
    let mut cur = ScopeSpec::Default;
    let mut i: usize = 0;
    assert(warning_models(out@) =~= base + flags_notes(all, 0));
    while i < av.len() && is_flag_arg(&av[i])
        invariant
            all == models(av@),
            i <= av.len(),
            flags_end(all, 0) == flags_end(all, i as int),
            cur == flags_spec(all, i as int),
            warning_models(out@) == base + flags_notes(all, i as int),
        decreases av.len() - i,
    {
        assert(all[i as int] == av@[i as int]@);
        let s = av[i].as_str();
        let n = s.unicode_len();
        let mut j: usize = 1;
        let ghost start = cur;
        let ghost before = warning_models(out@);
        assert(warning_models(out@) =~= before + flag_notes(start, s@, 1));
        while j < n
            invariant
                1 <= j,
                n == s@.len(),
                n >= 1 ==> j <= n,
                cur == flag_spec(start, s@, j as int),
                warning_models(out@) == before + flag_notes(start, s@, j as int),
            decreases n - j,
        {
            let c = s.get_char(j);
            let ghost was = out@;
            if c == 'l' || c == 'g' || c == 'e' {
                if cur != ScopeSpec::Default {
                    out.push(Warning::ScopeConflict);
                    assert(warning_models(out@) =~= warning_models(was).push(WarningModel::ScopeConflict));
                }
                if c == 'l' {
                    cur = ScopeSpec::Local;
                } else if c == 'g' {
                    cur = ScopeSpec::Global;
                } else {
                    cur = ScopeSpec::Environment;
                }
            } else {
                out.push(Warning::UnknownFlag(c));
                assert(warning_models(out@) =~= warning_models(was).push(WarningModel::UnknownFlag(c)));
            }
            assert(warning_models(out@) =~= before + flag_notes(start, s@, j + 1));
            j += 1;
        }
        proof {
            assert(seq!['-'].is_prefix_of(s@));
            assert(n >= 1);
            assert(warning_models(out@) =~= base + flags_notes(all, i + 1));
        }
        i += 1;
    }
    proof {
        if i < av.len() {
            assert(all[i as int] == av@[i as int]@);
        }
    }
}

/// Adds one warning for each of `keys` that is not valid to `out`.
pub fn key_warnings(keys: &Vec<String>, out: &mut Vec<Warning>)
    ensures
        warning_models(final(out)@) == warning_models(old(out)@) + key_notes(texts(keys@)),
{
    let ghost base = warning_models(out@);
    let mut i: usize = 0;
    assert(warning_models(out@) =~= base + key_notes(texts(keys@).take(0)));
    while i < keys.len()
        invariant
            i <= keys.len(),
            warning_models(out@) == base + key_notes(texts(keys@).take(i as int)),
        decreases keys.len() - i,
    {
        proof {
            let t = texts(keys@);
            assert(t.take(i + 1).drop_last() =~= t.take(i as int));
            assert(t.take(i + 1).last() == keys@[i as int]@);
        }
        if !key_ok(keys[i].as_str()) {
            let ghost was = out@;
            let copy = keys[i].clone();
            out.push(Warning::BadKey(copy));
            assert(warning_models(out@) =~= warning_models(was).push(WarningModel::BadKey(copy@)));
            assert(warning_models(out@) =~= base + key_notes(texts(keys@).take(i + 1)));
        }
        i += 1;
    }
    proof {
        let t = texts(keys@);
        assert(t.take(t.len() as int) =~= t);
    }
}

/// The status of `set` once the caller has made the writes that were left
/// to it: the status of the invocation if each write succeeded, else 2.
pub fn set_status(status: i32, all_written: bool) -> (r: i32)
    ensures
        r == if all_written {
            status
        } else {
            2
        },
{
    if all_written {
        status
    } else {
        2
    }
}

/// Runs `set` on the table. `opt_keys` holds the names that the option
/// registry knows; a write to one of them, or to the environment, is handed
/// back for the caller to make, with the warnings for the caller to show.
pub fn set_main(args: Vec<Arg>, st: &mut Symtable, opt_keys: &Vec<String>) -> (r: SetOutcome)
    requires
        old(st).wf(),
    ensures
        final(st).wf(),
        final(st)@ == after_plan(old(st)@, plan_of(models(args@)), texts(opt_keys@)),
        r.status == status_of(plan_of(models(args@))),
        effect_models(r.effects@) == effects_of(plan_of(models(args@)), texts(opt_keys@)),
        warning_models(r.warnings@) == warnings_of(models(args@)),
{
    let ghost all = models(args@);
    let mut args = args;
    let mut effects: Vec<Effect> = Vec::new();
    let mut warnings: Vec<Warning> = Vec::new();
    assert(effect_models(effects@) =~= Seq::<EffectModel>::empty());
    assert(warning_models(warnings@) =~= Seq::<WarningModel>::empty());
    if args.len() == 1 && args[0].is_rd() {
        assert(all[0] == args@[0]@);
        let rd = args.remove(0).unwrap_rd();
        warnings.push(Warning::Redirection);
        assert(warning_models(warnings@) =~= seq![WarningModel::Redirection]);
        return SetOutcome { status: rd_set(rd), effects, warnings };
    }
    proof {
        if args.len() == 1 {
            assert(all[0] == args@[0]@);
        }
    }
    flag_warnings(&args, &mut warnings);
    assert(warning_models(warnings@) =~= flags_notes(all, flags_end(all, 0)));
    let spec = set_spec(&mut args);
    let e = eq_index(&args);
    if e >= args.len() {
        let ghost was = warnings@;
        warnings.push(Warning::NoEquals);
        assert(warning_models(warnings@) =~= warning_models(was).push(WarningModel::NoEquals));
        return SetOutcome { status: 2, effects, warnings };
    }
    let keyv = set_keys(&mut args);
    key_warnings(&keyv, &mut warnings);
    let keyv = filter_keys(keyv);
    let ghost vals = models(args@);
    if args.len() > 0 && is_fn_arg(&args[0]) {
        assert(vals[0] == args@[0]@);
        args.remove(0);
        assert(models(args@) =~= vals.skip(1));
        let ghost av = models(args@);
        proof {
            if args.len() > 0 {
                assert(av.last() == args@[args.len() - 1]@);
            }
        }
        let ghost was = warnings@;
        if args.len() == 0 || !args[args.len() - 1].is_bl() {
            warnings.push(Warning::NoBlock);
            assert(warning_models(warnings@) =~= warning_models(was).push(WarningModel::NoBlock));
        } else if spec == ScopeSpec::Environment {
            warnings.push(Warning::EnvironmentFn);
            assert(warning_models(warnings@) =~= warning_models(was).push(WarningModel::EnvironmentFn));
        }
        let status = fn_set(st, keyv, args, spec);
        return SetOutcome { status, effects, warnings };
    }
    proof {
        if args.len() > 0 {
            assert(vals[0] == args@[0]@);
        }
        assert(vals.subrange(0, vals.len() as int) =~= vals);
    }
    let toks = flatten(&args, 0, args.len());
    let val = join_spaced(&toks);
    let mut i: usize = 0;
    while i < keyv.len()
        invariant
            i <= keyv.len(),
            st.wf(),
            st@ == assigned_all(old(st)@, texts(keyv@), val@, spec, texts(opt_keys@), i as int),
            effect_models(effects@) == effects_all(texts(keyv@), val@, spec, texts(opt_keys@), i as int),
        decreases keyv.len() - i,
    {
        let is_opt = contains_text(opt_keys, keyv[i].as_str());
        let ghost before = effects@;
        let eff = st.set_scope(keyv[i].as_str(), val.clone(), spec, is_opt);
        effects.push(eff);
        assert(effect_models(effects@) =~= effect_models(before).push(eff@));
        i += 1;
    }
    SetOutcome { status: 0, effects, warnings }
}

} // verus!
