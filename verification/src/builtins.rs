//! The native primitives: their registry and the decisions each one takes.

pub mod set;

use vstd::prelude::*;
use vstd::string::*;
use crate::args::{downconvert, flat, models, Arg, ArgModel};
use crate::dict::{stored, Dict};
use crate::text::{clone_texts, opt_text, texts};

verus! {

/// The native operations.
#[derive(PartialEq, Eq, Structural, Copy, Clone, Debug)]
pub enum Prim {
    Blank,
    Ifx,
    Eval,
    SetVar,
    Cd,
    Exit,
    History,
    Read,
}

/// A native primitive: its name, what it is for, and the operation it runs.
#[derive(Copy, Clone)]
pub struct Builtin {
    pub name: &'static str,
    pub desc: &'static str,
    pub run: Prim,
}

/// A primitive, as plain sequences.
pub ghost struct BuiltinModel {
    pub name: Seq<char>,
    pub desc: Seq<char>,
    pub run: Prim,
}

impl View for Builtin {
    type V = BuiltinModel;

    open spec fn view(&self) -> BuiltinModel {
        BuiltinModel { name: self.name@, desc: self.desc@, run: self.run }
    }
}

/// The primitive that runs for an empty line.
pub open spec fn blank_model() -> BuiltinModel {
    BuiltinModel { name: "__blank"@, desc: "The blank builtin"@, run: Prim::Blank }
}

/// The primitive registered under `name` for the operation `run`.
pub open spec fn entry(name: Seq<char>, desc: Seq<char>, run: Prim) -> BuiltinModel {
    BuiltinModel { name, desc, run }
}

/// The registry of primitives, in the order of registration.
pub open spec fn registry() -> Seq<(Seq<char>, BuiltinModel)> {
    let r0 = Seq::<(Seq<char>, BuiltinModel)>::empty();
    let r1 = stored(r0, "ifx"@, entry("ifx"@, "Execute a block depending on the status code of a given statement"@, Prim::Ifx));
    let r2 = stored(r1, "eval"@, entry("eval"@, "Evaluate a passed-in statement"@, Prim::Eval));
    let r3 = stored(r2, "set"@, entry("set"@, "Set a variable binding"@, Prim::SetVar));
    let r4 = stored(r3, "cd"@, entry("cd"@, "Change directory"@, Prim::Cd));
    let r5 = stored(r4, "exit"@, entry("exit"@, "Exit the tin shell"@, Prim::Exit));
    let r6 = stored(r5, "history"@, entry("history"@, "List/control history"@, Prim::History));
    stored(r6, "read"@, entry("read"@, "Read from stdin or a file and echo to stdout"@, Prim::Read))
}

/// The primitive that runs for an empty or comment-only line.
pub fn blank_builtin() -> (r: Builtin)
    ensures
        r@ == blank_model(),
{
    Builtin { name: "__blank", desc: "The blank builtin", run: Prim::Blank }
}

impl Default for Builtin {
    fn default() -> (r: Self)
        ensures
            r@ == blank_model(),
    {
        blank_builtin()
    }
}

impl Builtin {
    /// The registry of primitives, keyed by name.
    pub fn map() -> (r: Dict<Builtin>)
        ensures
            r.wf(),
            r@ == registry(),
    {
        let mut m: Dict<Builtin> = Dict::new();
        m.insert("ifx".to_owned(), Builtin { name: "ifx", desc: "Execute a block depending on the status code of a given statement", run: Prim::Ifx });
        m.insert("eval".to_owned(), Builtin { name: "eval", desc: "Evaluate a passed-in statement", run: Prim::Eval });
        m.insert("set".to_owned(), Builtin { name: "set", desc: "Set a variable binding", run: Prim::SetVar });
        m.insert("cd".to_owned(), Builtin { name: "cd", desc: "Change directory", run: Prim::Cd });
        m.insert("exit".to_owned(), Builtin { name: "exit", desc: "Exit the tin shell", run: Prim::Exit });
        m.insert("history".to_owned(), Builtin { name: "history", desc: "List/control history", run: Prim::History });
        m.insert("read".to_owned(), Builtin { name: "read", desc: "Read from stdin or a file and echo to stdout", run: Prim::Read });
        m
    }
}

/// The lines of each block of a sequence.
pub open spec fn block_texts(v: Seq<Vec<String>>) -> Seq<Seq<Seq<char>>> {
    Seq::new(v.len(), |i: int| texts(v[i]@))
}

/// A primitive that has handed work to the interpreter and waits for the
/// status of that work.
pub enum Run {
    /// `ifx` waits for its statement, and holds the block that may follow.
    IfxTest(Vec<String>),
    /// The status of what runs now is the status of the primitive.
    Last,
    /// The blank primitive waits for a block, and holds the blocks that
    /// follow it.
    Blank(Vec<Vec<String>>),
}

/// A waiting primitive, as plain sequences.
pub ghost enum RunModel {
    IfxTest(Seq<Seq<char>>),
    Last,
    Blank(Seq<Seq<Seq<char>>>),
}

impl View for Run {
    type V = RunModel;

    open spec fn view(&self) -> RunModel {
        match self {
            Run::IfxTest(b) => RunModel::IfxTest(texts(b@)),
            Run::Last => RunModel::Last,
            Run::Blank(bs) => RunModel::Blank(block_texts(bs@)),
        }
    }
}

/// What the interpreter is to do next for a primitive.
pub enum Request {
    /// Nothing: the primitive has ended with this status.
    Done(i32),
    /// Warn that the invocation is malformed; the primitive has ended with
    /// this status.
    Refuse(i32),
    /// Execute the arguments as a statement and resume with its status.
    Statement(Vec<Arg>, Run),
    /// Execute the lines as a block and resume with its status. The flag
    /// says whether the block runs in a frame of its own.
    Block(Vec<String>, Run, bool),
    /// Run `set` on the table with these arguments.
    Assign(Vec<Arg>),
    /// Change to the directory, after resolving it to an absolute path where
    /// the flag is set, and record it as the working directory.
    ChangeDir(String, bool),
    /// Print the history log; the status is 0.
    History,
    /// Read one line from the input and echo it.
    Read,
    /// End the process with this status, after a warning where the flag is
    /// set.
    Exit(i32, bool),
}

/// A request, as plain sequences.
pub ghost enum RequestModel {
    Done(int),
    Refuse(int),
    Statement(Seq<ArgModel>, RunModel),
    Block(Seq<Seq<char>>, RunModel, bool),
    Assign(Seq<ArgModel>),
    ChangeDir(Seq<char>, bool),
    History,
    Read,
    Exit(int, bool),
}

impl View for Request {
    type V = RequestModel;

    open spec fn view(&self) -> RequestModel {
        match self {
            Request::Done(s) => RequestModel::Done(*s as int),
            Request::Refuse(s) => RequestModel::Refuse(*s as int),
            Request::Statement(a, r) => RequestModel::Statement(models(a@), r@),
            Request::Block(b, r, f) => RequestModel::Block(texts(b@), r@, *f),
            Request::Assign(a) => RequestModel::Assign(models(a@)),
            Request::ChangeDir(p, c) => RequestModel::ChangeDir(p@, *c),
            Request::History => RequestModel::History,
            Request::Read => RequestModel::Read,
            Request::Exit(s, w) => RequestModel::Exit(*s as int, *w),
        }
    }
}

/// The blocks among the arguments, in order.
pub open spec fn blocks_of(args: Seq<ArgModel>) -> Seq<Seq<Seq<char>>>
    decreases args.len(),
{
    if args.len() == 0 {
        Seq::empty()
    } else {
        let r = blocks_of(args.drop_last());
        match args.last() {
            ArgModel::Bl(l) => r.push(l),
            _ => r,
        }
    }
}

/// What follows when the blocks `bs` are still to run and the last status
/// was `status`.
pub open spec fn blank_next(bs: Seq<Seq<Seq<char>>>, status: int) -> RequestModel {
    if bs.len() == 0 {
        RequestModel::Done(status)
    } else {
        RequestModel::Block(bs[0], RunModel::Blank(bs.skip(1)), true)
    }
}

/// The blank primitive runs its blocks in order, each in a frame of its own,
/// and ends with the status of the last; without a block it ends with 0.
pub open spec fn blank_request(args: Seq<ArgModel>) -> RequestModel {
    blank_next(blocks_of(args), 0)
}

/// `ifx` runs what stands before its last argument as a statement, and holds
/// that argument, which must be a block; otherwise it is refused with 3.
pub open spec fn ifx_request(args: Seq<ArgModel>) -> RequestModel {
    if args.len() == 0 {
        RequestModel::Refuse(3)
    } else {
        match args.last() {
            ArgModel::Bl(l) => RequestModel::Statement(args.drop_last(), RunModel::IfxTest(l)),
            _ => RequestModel::Refuse(3),
        }
    }
}

/// What a waiting primitive asks for once the status of its work is known.
/// `ifx` runs its block after status 0, in the frame it was called in, and
/// ends with any other status as it is.
pub open spec fn resumed(run: RunModel, status: int) -> RequestModel {
    match run {
        RunModel::IfxTest(block) => if status == 0 {
            RequestModel::Block(block, RunModel::Last, false)
        } else {
            RequestModel::Done(status)
        },
        RunModel::Last => RequestModel::Done(status),
        RunModel::Blank(bs) => blank_next(bs, status),
    }
}

/// What the text of an exit status stands for, as `str::parse::<i32>` reads
/// it: `None` where it is no number that an `i32` holds.
pub uninterp spec fn parsed_i32(s: Seq<char>) -> Option<i32>;

/// Reads a decimal `i32`.
///
/// Trusted: calls `str::parse::<i32>`, whose result depends on the text
/// alone; the contract gives that result its name and says nothing else.
#[verifier::external_body]
fn parse_i32(s: &str) -> (r: Option<i32>)
    ensures
        r == parsed_i32(s@),
{
    s.parse::<i32>().ok()
}

/// The exit status for a parsed argument: the number, or 2 where there was
/// none.
pub open spec fn exit_status_of(parsed: Option<i32>) -> int {
    match parsed {
        Some(i) => i as int,
        None => 2,
    }
}

/// The status that `exit` ends the process with: 0 without arguments, else
/// what the first text token stands for.
pub open spec fn exit_code_of(args: Seq<ArgModel>) -> int {
    if args.len() == 0 {
        0
    } else if flat(args).len() == 0 {
        2
    } else {
        exit_status_of(parsed_i32(flat(args)[0]))
    }
}

/// `exit` warns where it has an argument that stands for no status.
pub open spec fn exit_warns(args: Seq<ArgModel>) -> bool {
    args.len() > 0 && (flat(args).len() == 0 || parsed_i32(flat(args)[0]).is_none())
}

/// `exit` ends the process, whatever its arguments.
pub open spec fn exit_request(args: Seq<ArgModel>) -> RequestModel {
    RequestModel::Exit(exit_code_of(args), exit_warns(args))
}

/// Where `cd` goes: home without arguments, else to its first text token,
/// resolved to an absolute path. It is refused with 2 where home is asked
/// for and not known, or where no token names a place.
pub open spec fn cd_request(args: Seq<ArgModel>, home: Option<Seq<char>>) -> RequestModel {
    if args.len() == 0 {
        match home {
            Some(h) => RequestModel::ChangeDir(h, false),
            None => RequestModel::Refuse(2),
        }
    } else if flat(args).len() == 0 {
        RequestModel::Refuse(2)
    } else {
        RequestModel::ChangeDir(flat(args)[0], true)
    }
}

/// What a primitive asks for when it is invoked.
pub open spec fn started(prim: Prim, args: Seq<ArgModel>, home: Option<Seq<char>>) -> RequestModel {
    match prim {
        Prim::Blank => blank_request(args),
        Prim::Ifx => ifx_request(args),
        Prim::Eval => RequestModel::Statement(args, RunModel::Last),
        Prim::SetVar => RequestModel::Assign(args),
        Prim::Cd => cd_request(args, home),
        Prim::Exit => exit_request(args),
        Prim::History => RequestModel::History,
        Prim::Read => RequestModel::Read,
    }
}

/// The exit status for a parsed argument.
pub fn exit_status(parsed: Option<i32>) -> (r: i32)
    ensures
        r == exit_status_of(parsed),
{
    match parsed {
        Some(i) => i,
        None => 2,
    }
}

/// `exit`: the status to end the process with, and whether to warn first.
pub fn exit(args: Vec<Arg>) -> (r: Request)
    ensures
        r@ == exit_request(models(args@)),
{
    if args.len() == 0 {
        return Request::Exit(0, false);
    }
    let toks = downconvert(args);
    if toks.len() == 0 {
        return Request::Exit(2, true);
    }
    assert(texts(toks@)[0] == toks@[0]@);
    let parsed = parse_i32(toks[0].as_str());
    Request::Exit(exit_status(parsed), parsed.is_none())
}

/// The status of a primitive whose work was input or output: 0 where it
/// succeeded, 2 where it failed.
pub fn io_status(ok: bool) -> (r: i32)
    ensures
        r == if ok {
            0int
        } else {
            2int
        },
{
    if ok {
        0
    } else {
        2
    }
}

/// Where `cd` goes. `home` is the home directory, where it is known.
pub fn cd(args: Vec<Arg>, home: Option<String>) -> (r: Request)
    ensures
        r@ == cd_request(models(args@), opt_text(home)),
{
    if args.len() == 0 {
        return match home {
            Some(h) => Request::ChangeDir(h, false),
            None => Request::Refuse(2),
        };
    }
    let toks = downconvert(args);
    if toks.len() == 0 {
        return Request::Refuse(2);
    }
    assert(texts(toks@)[0] == toks@[0]@);
    Request::ChangeDir(toks[0].clone(), true)
}

/// The blocks among the arguments.
fn blocks(args: &Vec<Arg>) -> (r: Vec<Vec<String>>)
    ensures
        block_texts(r@) == blocks_of(models(args@)),
{
    let mut r: Vec<Vec<String>> = Vec::new();
    let mut i: usize = 0;
    let ghost m = models(args@);
    assert(block_texts(r@) =~= blocks_of(m.take(0)));
    while i < args.len()
        invariant
            i <= args.len(),
            m == models(args@),
            block_texts(r@) == blocks_of(m.take(i as int)),
        decreases args.len() - i,
    {
        proof {
            assert(m.take(i + 1).drop_last() =~= m.take(i as int));
            assert(m.take(i + 1).last() == args@[i as int]@);
        }
        match &args[i] {
            Arg::Bl(l) => {
                let ghost before = r@;
                let copy = clone_texts(l);
                r.push(copy);
                assert(block_texts(r@) =~= block_texts(before).push(texts(l@)));
            },
            _ => {},
        }
        i += 1;
    }
    assert(m.take(m.len() as int) =~= m);
    r
}

/// Runs the first of the blocks and holds the rest, or ends with `status`
/// where none is left.
fn blank_step(bs: Vec<Vec<String>>, status: i32) -> (r: Request)
    ensures
        r@ == blank_next(block_texts(bs@), status as int),
{
    let mut bs = bs;
    if bs.len() == 0 {
        return Request::Done(status);
    }
    let ghost before = bs@;
    assert(block_texts(before)[0] == texts(before[0]@));
    let first = bs.remove(0);
    proof {
        assert forall|j: int| 0 <= j < bs@.len() implies block_texts(bs@)[j] == block_texts(before).skip(1)[j] by {
            assert(bs@[j] == before[j + 1]);
            assert(block_texts(before)[j + 1] == texts(before[j + 1]@));
        }
        assert(block_texts(bs@) =~= block_texts(before).skip(1));
    }
    Request::Block(first, Run::Blank(bs), true)
}

/// The blank primitive, which runs for an empty or comment-only line.
pub fn blank(args: Vec<Arg>) -> (r: Request)
    ensures
        r@ == blank_request(models(args@)),
{
    let bs = blocks(&args);
    blank_step(bs, 0)
}

/// `ifx`: a statement, and a block that runs where the statement succeeds.
pub fn ifx(args: Vec<Arg>) -> (r: Request)
    ensures
        r@ == ifx_request(models(args@)),
{
    let mut args = args;
    let ghost m = models(args@);
    if args.len() == 0 {
        return Request::Refuse(3);
    }
    assert(m.last() == args@[args.len() - 1]@);
    let last = args.pop();
    assert(models(args@) =~= m.drop_last());
    match last {
        Some(Arg::Bl(lv)) => Request::Statement(args, Run::IfxTest(lv)),
        _ => Request::Refuse(3),
    }
}

/// `eval`: its arguments run as a statement, whose status is its own.
pub fn eval(args: Vec<Arg>) -> (r: Request)
    ensures
        r@ == RequestModel::Statement(models(args@), RunModel::Last),
{
    Request::Statement(args, Run::Last)
}

/// What a waiting primitive asks for once the status of its work is known.
pub fn resume(run: Run, status: i32) -> (r: Request)
    ensures
        r@ == resumed(run@, status as int),
{
    match run {
        Run::IfxTest(block) => {
            if status == 0 {
                Request::Block(block, Run::Last, false)
            } else {
                Request::Done(status)
            }
        },
        Run::Last => Request::Done(status),
        Run::Blank(bs) => blank_step(bs, status),
    }
}

impl Builtin {
    /// Invokes the primitive on its arguments: the first thing it asks the
    /// interpreter to do. `home` is the home directory, where it is known.
    pub fn start(&self, args: Vec<Arg>, home: Option<String>) -> (r: Request)
        ensures
            r@ == started(self.run, models(args@), opt_text(home)),
    {
        match self.run {
            Prim::Blank => blank(args),
            Prim::Ifx => ifx(args),
            Prim::Eval => eval(args),
            Prim::SetVar => Request::Assign(args),
            Prim::Cd => cd(args, home),
            Prim::Exit => exit(args),
            Prim::History => Request::History,
            Prim::Read => Request::Read,
        }
    }
}

} // verus!
