//! The expression IR that decoded instructions are lifted into.

use vstd::prelude::*;

verus! {

pub const OP_ADD: u8 = 0x0;

pub const OP_SUB: u8 = 0x1;

pub const OP_MUL: u8 = 0x2;

pub const OP_AND: u8 = 0x3;

pub const OP_OR: u8 = 0x4;

pub const OP_XOR: u8 = 0x5;

pub const OP_LSL: u8 = 0x6;

pub const OP_LSR: u8 = 0x7;

pub const OP_ASR: u8 = 0x8;

pub const OP_CMP: u8 = 0x9;

pub const OP_LT: u8 = 0xa;

pub const OP_GT: u8 = 0xb;

pub const OP_LTE: u8 = 0xc;

pub const OP_GTE: u8 = 0xd;

pub const OP_EQ: u8 = 0xe;

pub const OP_NEQ: u8 = 0xf;

pub const OP_ROR: u8 = 0x11;

pub const OP_ANDAND: u8 = 0x12;

pub const OP_OROR: u8 = 0x13;

/// An IR expression: a tree with owned children.
pub enum Expr {
    Constant(i64),
    Label(String),
    Register(String),
    Special(String, Vec<Box<Expr>>),
    Dereference(u8, Box<Expr>),
    Binary(u8, Box<Expr>, Box<Expr>),
    Call(Box<Expr>),
    Goto(Box<Expr>),
    Store(Box<Expr>, Box<Expr>),
    Group(Vec<Box<Expr>>),
    If(Box<Expr>, Box<Expr>, Option<Box<Expr>>),
    Nop,
    Return,
}

/// The mathematical value of an `Expr`: the same tree, with names as
/// character sequences. Two expressions are structurally equal when their
/// views are equal.
pub ghost enum ExprV {
    Constant(int),
    Label(Seq<char>),
    Register(Seq<char>),
    Special(Seq<char>, Seq<ExprV>),
    Dereference(u8, Box<ExprV>),
    Binary(u8, Box<ExprV>, Box<ExprV>),
    Call(Box<ExprV>),
    Goto(Box<ExprV>),
    Store(Box<ExprV>, Box<ExprV>),
    Group(Seq<ExprV>),
    If(Box<ExprV>, Box<ExprV>, Option<Box<ExprV>>),
    Nop,
    Return,
}

impl Expr {
    /// The tree as a mathematical value.
    pub open spec fn model(&self) -> ExprV
        decreases self,
    {
        match self {
            Expr::Constant(i) => ExprV::Constant(*i as int),
            Expr::Label(s) => ExprV::Label(s@),
            Expr::Register(s) => ExprV::Register(s@),
            Expr::Special(s, args) => ExprV::Special(
                s@,
                Seq::new(
                    args.len() as nat,
                    |i: int|
                        if 0 <= i < args.len() {
                            args[i].model()
                        } else {
                            ExprV::Nop
                        },
                ),
            ),
            Expr::Dereference(n, a) => ExprV::Dereference(*n, Box::new(a.model())),
            Expr::Binary(op, l, r) => ExprV::Binary(*op, Box::new(l.model()), Box::new(r.model())),
            Expr::Call(a) => ExprV::Call(Box::new(a.model())),
            Expr::Goto(a) => ExprV::Goto(Box::new(a.model())),
            Expr::Store(d, s) => ExprV::Store(Box::new(d.model()), Box::new(s.model())),
            Expr::Group(g) => ExprV::Group(
                Seq::new(
                    g.len() as nat,
                    |i: int|
                        if 0 <= i < g.len() {
                            g[i].model()
                        } else {
                            ExprV::Nop
                        },
                ),
            ),
            Expr::If(c, t, e) => ExprV::If(
                Box::new(c.model()),
                Box::new(t.model()),
                match e {
                    Some(x) => Some(Box::new(x.model())),
                    None => None,
                },
            ),
            Expr::Nop => ExprV::Nop,
            Expr::Return => ExprV::Return,
        }
    }
}

impl View for Expr {
    type V = ExprV;

    open spec fn view(&self) -> ExprV {
        self.model()
    }
}

/// Whether every `Register` node of `e` names a member of `names`.
pub open spec fn regs_within(e: ExprV, names: Set<Seq<char>>) -> bool
    decreases e,
{
    match e {
        ExprV::Register(r) => names.contains(r),
        ExprV::Special(_, args) => forall|i: int| 0 <= i < args.len() ==> regs_within(#[trigger] args[i], names),
        ExprV::Dereference(_, a) => regs_within(*a, names),
        ExprV::Call(a) => regs_within(*a, names),
        ExprV::Goto(a) => regs_within(*a, names),
        ExprV::Binary(_, l, r) => regs_within(*l, names) && regs_within(*r, names),
        ExprV::Store(d, s) => regs_within(*d, names) && regs_within(*s, names),
        ExprV::Group(g) => forall|i: int| 0 <= i < g.len() ==> regs_within(#[trigger] g[i], names),
        ExprV::If(c, t, el) => regs_within(*c, names) && regs_within(*t, names) && match el {
            Some(x) => regs_within(*x, names),
            None => true,
        },
        _ => true,
    }
}

/// The views of a list of boxed expressions.
pub open spec fn views(v: Seq<Box<Expr>>) -> Seq<ExprV> {
    Seq::new(v.len(), |i: int| v[i]@)
}

pub fn expr_register(r: String) -> (e: Box<Expr>)
    ensures
        e@ == ExprV::Register(r@),
{
    Box::new(Expr::Register(r))
}

pub fn expr_constant(i: i64) -> (e: Box<Expr>)
    ensures
        e@ == ExprV::Constant(i as int),
{
    Box::new(Expr::Constant(i))
}

pub fn expr_binary(op: u8, lhs: Box<Expr>, rhs: Box<Expr>) -> (e: Box<Expr>)
    ensures
        e@ == ExprV::Binary(op, Box::new(lhs@), Box::new(rhs@)),
{
    Box::new(Expr::Binary(op, lhs, rhs))
}

pub fn expr_dereference(size: u8, rhs: Box<Expr>) -> (e: Box<Expr>)
    ensures
        e@ == ExprV::Dereference(size, Box::new(rhs@)),
{
    Box::new(Expr::Dereference(size, rhs))
}

pub fn expr_store(dest: Box<Expr>, src: Box<Expr>) -> (e: Box<Expr>)
    ensures
        e@ == ExprV::Store(Box::new(dest@), Box::new(src@)),
{
    Box::new(Expr::Store(dest, src))
}

pub fn expr_group(group: Vec<Box<Expr>>) -> (e: Box<Expr>)
    ensures
        e@ == ExprV::Group(views(group@)),
{
    let ghost gv = group@;
    let e = Box::new(Expr::Group(group));
    assert(e@->Group_0 =~= views(gv));
    e
}

pub fn expr_call(callee: Box<Expr>) -> (e: Box<Expr>)
    ensures
        e@ == ExprV::Call(Box::new(callee@)),
{
    Box::new(Expr::Call(callee))
}

pub fn expr_goto(jmp: Box<Expr>) -> (e: Box<Expr>)
    ensures
        e@ == ExprV::Goto(Box::new(jmp@)),
{
    Box::new(Expr::Goto(jmp))
}

pub fn expr_nop() -> (e: Box<Expr>)
    ensures
        e@ == ExprV::Nop,
{
    Box::new(Expr::Nop)
}

pub fn expr_ret() -> (e: Box<Expr>)
    ensures
        e@ == ExprV::Return,
{
    Box::new(Expr::Return)
}

pub fn expr_if(cond: Box<Expr>, then: Box<Expr>) -> (e: Box<Expr>)
    ensures
        e@ == ExprV::If(Box::new(cond@), Box::new(then@), None),
{
    Box::new(Expr::If(cond, then, None))
}

pub fn expr_special(name: &'static str, args: Vec<Box<Expr>>) -> (e: Box<Expr>)
    ensures
        e@ == ExprV::Special(name@, views(args@)),
{
    let ghost gv = args@;
    let e = Box::new(Expr::Special(String::from_str(name), args));
    assert(e@->Special_1 =~= views(gv));
    e
}

} // verus!
