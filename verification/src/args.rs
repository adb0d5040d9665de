//! The argument model: one token of a command line is text, a deferred block
//! of source lines, or a redirection.

use vstd::prelude::*;
use crate::text::{clone_texts, lemma_texts_push, texts};

verus! {

/// Where a redirection leads, as it was written.
pub struct Redir {
    pub spec: String,
}

/// One token of a command line.
pub enum Arg {
    /// Literal text.
    Str(String),
    /// Source lines, kept until a consumer runs them.
    Bl(Vec<String>),
    /// A redirection.
    Rd(Redir),
}

/// An argument, as plain sequences.
pub ghost enum ArgModel {
    Str(Seq<char>),
    Bl(Seq<Seq<char>>),
    Rd(Seq<char>),
}

impl View for Arg {
    type V = ArgModel;

    open spec fn view(&self) -> ArgModel {
        match self {
            Arg::Str(s) => ArgModel::Str(s@),
            Arg::Bl(l) => ArgModel::Bl(texts(l@)),
            Arg::Rd(r) => ArgModel::Rd(r.spec@),
        }
    }
}

/// The arguments of a sequence, as plain sequences.
pub open spec fn models(v: Seq<Arg>) -> Seq<ArgModel> {
    Seq::new(v.len(), |i: int| v[i]@)
}

/// The text tokens that one argument stands for: its text, the lines of its
/// block, or nothing for a redirection.
pub open spec fn tokens(a: ArgModel) -> Seq<Seq<char>> {
    match a {
        ArgModel::Str(s) => seq![s],
        ArgModel::Bl(l) => l,
        ArgModel::Rd(_) => Seq::empty(),
    }
}

/// The text tokens of a sequence of arguments, in order.
pub open spec fn flat(args: Seq<ArgModel>) -> Seq<Seq<char>>
    decreases args.len(),
{
    if args.len() == 0 {
        Seq::empty()
    } else {
        flat(args.drop_last()) + tokens(args.last())
    }
}

impl Clone for Arg {
    fn clone(&self) -> (r: Self)
        ensures
            r@ == self@,
    {
        match self {
            Arg::Str(s) => Arg::Str(s.clone()),
            Arg::Bl(l) => Arg::Bl(clone_texts(l)),
            Arg::Rd(r) => Arg::Rd(Redir { spec: r.spec.clone() }),
        }
    }
}

impl Arg {
    /// Whether the argument is text.
    pub fn is_str(&self) -> (r: bool)
        ensures
            r == (self@ is Str),
    {
        match self {
            Arg::Str(_) => true,
            _ => false,
        }
    }

    /// Whether the argument is a block.
    pub fn is_bl(&self) -> (r: bool)
        ensures
            r == (self@ is Bl),
    {
        match self {
            Arg::Bl(_) => true,
            _ => false,
        }
    }

    /// Whether the argument is a redirection.
    pub fn is_rd(&self) -> (r: bool)
        ensures
            r == (self@ is Rd),
    {
        match self {
            Arg::Rd(_) => true,
            _ => false,
        }
    }

    /// The text of a text argument.
    pub fn as_str(&self) -> (r: &str)
        requires
            self@ is Str,
        ensures
            self@ == ArgModel::Str(r@),
    {
        match self {
            Arg::Str(s) => s.as_str(),
            _ => "",
        }
    }

    /// The text of a text argument, owned.
    pub fn unwrap_str(self) -> (r: String)
        requires
            self@ is Str,
        ensures
            self@ == ArgModel::Str(r@),
    {
        match self {
            Arg::Str(s) => s,
            _ => String::new(),
        }
    }

    /// The lines of a block argument.
    pub fn unwrap_bl(self) -> (r: Vec<String>)
        requires
            self@ is Bl,
        ensures
            self@ == ArgModel::Bl(texts(r@)),
    {
        match self {
            Arg::Bl(l) => l,
            _ => Vec::new(),
        }
    }

    /// The redirection of a redirection argument.
    pub fn unwrap_rd(self) -> (r: Redir)
        requires
            self@ is Rd,
        ensures
            self@ == ArgModel::Rd(r.spec@),
    {
        match self {
            Arg::Rd(r) => r,
            _ => Redir { spec: String::new() },
        }
    }

    /// The text tokens that the argument stands for.
    pub fn into_vec(self) -> (r: Vec<String>)
        ensures
            texts(r@) == tokens(self@),
    {
        match self {
            Arg::Str(s) => {
                let mut r: Vec<String> = Vec::new();
                r.push(s);
                assert(texts(r@) =~= seq![s@]);
                r
            },
            Arg::Bl(l) => l,
            Arg::Rd(_) => {
                let r: Vec<String> = Vec::new();
                assert(texts(r@) =~= Seq::<Seq<char>>::empty());
                r
            },
        }
    }
}

/// Adds copies of the strings of `more` to `res`.
pub fn extend_texts(res: &mut Vec<String>, more: &Vec<String>)
    ensures
        texts(final(res)@) == texts(old(res)@) + texts(more@),
{
    let mut i: usize = 0;
    assert(texts(res@) =~= texts(old(res)@) + texts(more@).take(0));
    while i < more.len()
        invariant
            i <= more.len(),
            texts(res@) == texts(old(res)@) + texts(more@).take(i as int),
        decreases more.len() - i,
    {
        let ghost before = res@;
        let copy = more[i].clone();
        res.push(copy);
        proof {
            lemma_texts_push(before, copy);
            assert(texts(res@) =~= texts(old(res)@) + texts(more@).take(i + 1));
        }
        i += 1;
    }
    assert(texts(more@).take(more@.len() as int) =~= texts(more@));
}

/// The text tokens of the arguments from `from` to `to`.
pub fn flatten(args: &Vec<Arg>, from: usize, to: usize) -> (r: Vec<String>)
    requires
        from <= to <= args.len(),
    ensures
        texts(r@) == flat(models(args@).subrange(from as int, to as int)),
{
    let mut r: Vec<String> = Vec::new();
    let mut i: usize = from;
    let ghost m = models(args@);
    assert(texts(r@) =~= flat(m.subrange(from as int, from as int)));
    while i < to
        invariant
            from <= i <= to,
            to <= args.len(),
            m == models(args@),
            texts(r@) == flat(m.subrange(from as int, i as int)),
        decreases to - i,
    {
        proof {
            assert(m.subrange(from as int, i + 1).drop_last() =~= m.subrange(from as int, i as int));
            assert(m.subrange(from as int, i + 1).last() == args@[i as int]@);
        }
        match &args[i] {
            Arg::Str(s) => {
                let ghost before = r@;
                let copy = s.clone();
                r.push(copy);
                proof {
                    lemma_texts_push(before, copy);
                    assert(texts(r@) =~= texts(before) + seq![s@]);
                }
            },
            Arg::Bl(l) => {
                extend_texts(&mut r, l);
            },
            Arg::Rd(_) => {
                assert(texts(r@) + Seq::<Seq<char>>::empty() =~= texts(r@));
            },
        }
        i += 1;
    }
    r
}

/// Flattens a sequence of arguments to its text tokens: the structure goes,
/// the order stays.
pub fn downconvert(args: Vec<Arg>) -> (r: Vec<String>)
    ensures
        texts(r@) == flat(models(args@)),
{
    let ghost m = models(args@);
    assert(m.subrange(0, m.len() as int) =~= m);
    flatten(&args, 0, args.len())
}

} // verus!
