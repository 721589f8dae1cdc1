//! Decompilation: lifting a disassembly into the IR, per-register change
//! lists, and printing the IR as pseudocode.

use vstd::prelude::*;
use crate::dis::{Disassembly, InstructionListing};
use crate::ir::{
    Expr, ExprV, OP_ADD, OP_AND, OP_ANDAND, OP_ASR, OP_CMP, OP_EQ, OP_GT, OP_GTE, OP_LSL, OP_LSR, OP_LT,
    OP_LTE, OP_MUL, OP_NEQ, OP_OR, OP_OROR, OP_SUB, OP_XOR,
};
use crate::prog::{find_key, keys, named_addrs, symbols_in, Program, Section};
use crate::dis::{
    chosen_name, disassemble, disassembly_of, first_at, listing_matches, machine_kind, section_symbols,
};
use crate::text::{concat_all, hex_pad, join, push_hex, push_sdec, sdec};
use crate::{arm, riscv, x86};

verus! {

/// The output language. Both targets use the pseudocode notation.
#[derive(Clone, Copy, PartialEq, Eq, Structural)]
pub enum Language {
    Pseudocode,
    C,
}

/// Four spaces per level.
pub open spec fn indent(depth: nat) -> Seq<char>
    decreases depth,
{
    if depth == 0 {
        Seq::empty()
    } else {
        indent((depth - 1) as nat) + "    "@
    }
}

/// The name of the first symbol at address `c`.
pub open spec fn first_sym(syms: Seq<(u64, Seq<char>)>, c: int) -> Option<Seq<char>>
    decreases syms.len(),
{
    if syms.len() == 0 {
        None
    } else if syms[0].0 == c {
        Some(syms[0].1)
    } else {
        first_sym(syms.drop_first(), c)
    }
}

/// The infix symbol of a binary operator.
pub open spec fn op_symbol(op: u8) -> Seq<char> {
    if op == OP_ADD {
        "+"@
    } else if op == OP_SUB {
        "-"@
    } else if op == OP_MUL {
        "*"@
    } else if op == OP_AND {
        "&"@
    } else if op == OP_OR {
        "|"@
    } else if op == OP_XOR {
        "^"@
    } else if op == OP_LSL {
        "<<"@
    } else if op == OP_LSR {
        ">>"@
    } else if op == OP_ASR {
        ">>>"@
    } else if op == OP_LT {
        "<"@
    } else if op == OP_GT {
        ">"@
    } else if op == OP_LTE {
        "<="@
    } else if op == OP_GTE {
        ">="@
    } else if op == OP_EQ {
        "=="@
    } else if op == OP_NEQ {
        "!="@
    } else if op == OP_ANDAND {
        "&&"@
    } else if op == OP_OROR {
        "||"@
    } else {
        "?"@
    }
}

fn op_str(op: u8) -> (s: &'static str)
    ensures
        s@ == op_symbol(op),
{
    if op == OP_ADD {
        "+"
    } else if op == OP_SUB {
        "-"
    } else if op == OP_MUL {
        "*"
    } else if op == OP_AND {
        "&"
    } else if op == OP_OR {
        "|"
    } else if op == OP_XOR {
        "^"
    } else if op == OP_LSL {
        "<<"
    } else if op == OP_LSR {
        ">>"
    } else if op == OP_ASR {
        ">>>"
    } else if op == OP_LT {
        "<"
    } else if op == OP_GT {
        ">"
    } else if op == OP_LTE {
        "<="
    } else if op == OP_GTE {
        ">="
    } else if op == OP_EQ {
        "=="
    } else if op == OP_NEQ {
        "!="
    } else if op == OP_ANDAND {
        "&&"
    } else if op == OP_OROR {
        "||"
    } else {
        "?"
    }
}

/// The prefix of a dereference of `size` bytes.
pub open spec fn deref_prefix(size: u8) -> Seq<char> {
    if size == 1 {
        "*u8("@
    } else if size == 2 {
        "*u16("@
    } else if size == 4 {
        "*u32("@
    } else if size == 8 {
        "*u64("@
    } else {
        "*("@
    }
}

fn deref_str(size: u8) -> (s: &'static str)
    ensures
        s@ == deref_prefix(size),
{
    if size == 1 {
        "*u8("
    } else if size == 2 {
        "*u16("
    } else if size == 4 {
        "*u32("
    } else if size == 8 {
        "*u64("
    } else {
        "*("
    }
}

/// The symbol name for a direct target, if a symbol sits at it.
pub open spec fn target_name(a: ExprV, syms: Seq<(u64, Seq<char>)>) -> Option<Seq<char>> {
    match a {
        ExprV::Constant(c) => first_sym(syms, c),
        _ => None,
    }
}

/// The nesting level of the members of a group.
pub open spec fn deeper(depth: nat) -> nat {
    if depth < usize::MAX {
        depth + 1
    } else {
        depth
    }
}

/// The pseudocode of an expression at nesting `depth`.
pub open spec fn text(e: ExprV, depth: nat, syms: Seq<(u64, Seq<char>)>) -> Seq<char>
    decreases e,
{
    indent(depth) + match e {
        ExprV::Constant(i) => sdec(i),
        ExprV::Register(r) => r,
        ExprV::Label(r) => r,
        ExprV::Dereference(s, a) => deref_prefix(s) + text(*a, 0, syms) + ")"@,
        ExprV::Binary(op, l, r) => if op == OP_CMP {
            "cmp("@ + text(*l, 0, syms) + ", "@ + text(*r, 0, syms) + ")"@
        } else {
            "("@ + text(*l, 0, syms) + " "@ + op_symbol(op) + " "@ + text(*r, 0, syms) + ")"@
        },
        ExprV::Call(a) => match target_name(*a, syms) {
            Some(n) => n + "()"@,
            None => "("@ + text(*a, 0, syms) + ")()"@,
        },
        ExprV::Return => "return"@,
        ExprV::Goto(a) => match target_name(*a, syms) {
            Some(n) => "goto "@ + n,
            None => "goto ("@ + text(*a, 0, syms) + ")"@,
        },
        ExprV::If(c, t, el) => "if ("@ + text(*c, 0, syms) + ") "@ + text(*t, 0, syms) + match el {
            Some(x) => "\nelse "@ + text(*x, 0, syms),
            None => Seq::empty(),
        },
        ExprV::Store(d, s) => text(*d, 0, syms) + " = "@ + text(*s, 0, syms),
        ExprV::Nop => "nop"@,
        ExprV::Group(g) => "do:"@ + concat_all(member_lines(g, deeper(depth), syms)),
        ExprV::Special(name, args) => "$"@ + name + "("@ + join(arg_texts(args, syms), ", "@) + ")"@,
    }
}

/// Each member of a group on a new line, indented one level more.
pub open spec fn member_lines(g: Seq<ExprV>, depth: nat, syms: Seq<(u64, Seq<char>)>) -> Seq<Seq<char>>
    decreases g,
{
    Seq::new(
        g.len(),
        |i: int|
            if 0 <= i < g.len() {
                "\n    "@ + text(g[i], depth, syms)
            } else {
                Seq::empty()
            },
    )
}

/// The texts of the arguments of a special form.
pub open spec fn arg_texts(args: Seq<ExprV>, syms: Seq<(u64, Seq<char>)>) -> Seq<Seq<char>>
    decreases args,
{
    Seq::new(
        args.len(),
        |i: int|
            if 0 <= i < args.len() {
                text(args[i], 0, syms)
            } else {
                Seq::empty()
            },
    )
}

fn push_indent(out: &mut String, depth: usize)
    ensures
        final(out)@ == old(out)@ + indent(depth as nat),
{
    let mut k: usize = 0;
    while k < depth
        invariant
            k <= depth,
            out@ == old(out)@ + indent(k as nat),
        decreases depth - k,
    {
        out.append("    ");
        k = k + 1;
    }
}

/// The index of the first symbol at address `c`.
fn find_sym(symbols: &Vec<(u64, String)>, c: u64) -> (r: Option<usize>)
    ensures
        match r {
            Some(i) => i < symbols@.len() && first_sym(named_addrs(symbols@), c as int) == Some(symbols@[i as int].1@),
            None => first_sym(named_addrs(symbols@), c as int) is None,
        },
{
    let ghost syms = named_addrs(symbols@);
    let mut i: usize = 0;
    assert(syms.subrange(0, syms.len() as int) =~= syms);
    while i < symbols.len()
        invariant
            i <= symbols@.len(),
            syms == named_addrs(symbols@),
            first_sym(syms, c as int) == first_sym(syms.subrange(i as int, syms.len() as int), c as int),
        decreases symbols@.len() - i,
    {
        let ghost rest = syms.subrange(i as int, syms.len() as int);
        assert(rest.drop_first() =~= syms.subrange(i + 1, syms.len() as int));
        if symbols[i].0 == c {
            return Some(i);
        }
        i = i + 1;
    }
    assert(syms.subrange(i as int, syms.len() as int) =~= Seq::<(u64, Seq<char>)>::empty());
    None
}

impl Expr {
    /// The pseudocode of this expression, indented by `depth` levels; a direct
    /// call or jump to a symbol's address prints the symbol's name.
    pub fn print(&self, depth: usize, symbols: &Vec<(u64, String)>, lang: Language) -> (s: String)
        ensures
            s@ == text(self@, depth as nat, named_addrs(symbols@)),
        decreases self,
    {
        let ghost syms = named_addrs(symbols@);
        let mut out = String::new();
        push_indent(&mut out, depth);
        let ghost pre = out@;
        match self {
            Expr::Constant(i) => push_sdec(&mut out, *i),
            Expr::Register(r) => out.append(r.as_str()),
            Expr::Label(r) => out.append(r.as_str()),
            Expr::Dereference(size, a) => {
                out.append(deref_str(*size));
                out.append(a.print(0, symbols, lang).as_str());
                out.append(")");
            },
            Expr::Binary(op, l, r) => {
                if *op == OP_CMP {
                    out.append("cmp(");
                    out.append(l.print(0, symbols, lang).as_str());
                    out.append(", ");
                    out.append(r.print(0, symbols, lang).as_str());
                    out.append(")");
                } else {
                    out.append("(");
                    out.append(l.print(0, symbols, lang).as_str());
                    out.append(" ");
                    out.append(op_str(*op));
                    out.append(" ");
                    out.append(r.print(0, symbols, lang).as_str());
                    out.append(")");
                }
            },
            Expr::Call(a) => {
                let found = match **a {
                    Expr::Constant(c) => if c >= 0 {
                        find_sym(symbols, c as u64)
                    } else {
                        proof {
                            lemma_no_symbol_below(named_addrs(symbols@), c as int);
                        }
                        None
                    },
                    _ => None,
                };
                proof {
                    assert(match **a {
                        Expr::Constant(c) => a@ == ExprV::Constant(c as int),
                        _ => !(a@ is Constant),
                    });
                }
                match found {
                    Some(k) => {
                        out.append(symbols[k].1.as_str());
                        out.append("()");
                    },
                    None => {
                        out.append("(");
                        out.append(a.print(0, symbols, lang).as_str());
                        out.append(")()");
                    },
                }
                proof {
                    assert(out@ =~= text(self@, depth as nat, syms));
                }
            },
            Expr::Goto(a) => {
                let found = match **a {
                    Expr::Constant(c) => if c >= 0 {
                        find_sym(symbols, c as u64)
                    } else {
                        proof {
                            lemma_no_symbol_below(named_addrs(symbols@), c as int);
                        }
                        None
                    },
                    _ => None,
                };
                proof {
                    assert(match **a {
                        Expr::Constant(c) => a@ == ExprV::Constant(c as int),
                        _ => !(a@ is Constant),
                    });
                }
                match found {
                    Some(k) => {
                        out.append("goto ");
                        out.append(symbols[k].1.as_str());
                    },
                    None => {
                        out.append("goto (");
                        out.append(a.print(0, symbols, lang).as_str());
                        out.append(")");
                    },
                }
                proof {
                    assert(out@ =~= text(self@, depth as nat, syms));
                }
            },
            Expr::Return => out.append("return"),
            Expr::If(c, t, el) => {
                out.append("if (");
                out.append(c.print(0, symbols, lang).as_str());
                out.append(") ");
                out.append(t.print(0, symbols, lang).as_str());
                match el {
                    Some(x) => {
                        out.append("\nelse ");
                        out.append(x.print(0, symbols, lang).as_str());
                    },
                    None => {},
                }
                proof {
                    assert(out@ =~= text(self@, depth as nat, syms));
                }
            },
            Expr::Store(d, src) => {
                out.append(d.print(0, symbols, lang).as_str());
                out.append(" = ");
                out.append(src.print(0, symbols, lang).as_str());
            },
            Expr::Nop => out.append("nop"),
            Expr::Group(g) => {
                out.append("do:");
                let d1: usize = if depth < usize::MAX {
                    depth + 1
                } else {
                    depth
                };
                let ghost gv = self@->Group_0;
                let ghost pieces = member_lines(gv, deeper(depth as nat), syms);
                let ghost head = out@;
                let mut i: usize = 0;
                assert(pieces.take(0) =~= Seq::<Seq<char>>::empty());
                while i < g.len()
                    invariant
                        i <= g@.len(),
                        gv.len() == g@.len(),
                        forall|j: int| 0 <= j < gv.len() ==> gv[j] == g@[j]@,
                        d1 == deeper(depth as nat),
                        *self == Expr::Group(*g),
                        pieces.len() == gv.len(),
                        forall|j: int| 0 <= j < gv.len() ==> pieces[j] == "\n    "@ + text(gv[j], deeper(depth as nat), syms),
                        syms == named_addrs(symbols@),
                        out@ == head + concat_all(pieces.take(i as int)),
                    decreases g@.len() - i,
                {
                    proof {
                        assert(decreases_to!(*self => (*self)->Group_0));
                        assert(decreases_to!(*g => g@));
                        assert(decreases_to!(g@ => g@[i as int]));
                    }
                    let piece = g[i].print(d1, symbols, lang);
                    out.append("\n    ");
                    out.append(piece.as_str());
                    proof {
                        assert(pieces.take(i + 1).drop_last() =~= pieces.take(i as int));
                        assert(out@ =~= head + concat_all(pieces.take(i + 1)));
                    }
                    i = i + 1;
                }
                assert(pieces.take(i as int) =~= pieces);
                proof {
                    assert(out@ =~= text(self@, depth as nat, syms));
                }
            },
            Expr::Special(name, args) => {
                out.append("$");
                out.append(name.as_str());
                out.append("(");
                let ghost av = self@->Special_1;
                let ghost pieces = arg_texts(av, syms);
                let ghost head = out@;
                let mut i: usize = 0;
                assert(pieces.take(0) =~= Seq::<Seq<char>>::empty());
                while i < args.len()
                    invariant
                        i <= args@.len(),
                        av.len() == args@.len(),
                        forall|j: int| 0 <= j < av.len() ==> av[j] == args@[j]@,
                        *self == Expr::Special(*name, *args),
                        pieces.len() == av.len(),
                        forall|j: int| 0 <= j < av.len() ==> pieces[j] == text(av[j], 0, syms),
                        syms == named_addrs(symbols@),
                        out@ == head + join(pieces.take(i as int), ", "@),
                    decreases args@.len() - i,
                {
                    proof {
                        assert(decreases_to!(*self => (*self)->Special_1));
                        assert(decreases_to!(*args => args@));
                        assert(decreases_to!(args@ => args@[i as int]));
                    }
                    let piece = args[i].print(0, symbols, lang);
                    if i > 0 {
                        out.append(", ");
                    }
                    out.append(piece.as_str());
                    proof {
                        assert(pieces.take(i + 1).drop_last() =~= pieces.take(i as int));
                        assert(out@ =~= head + join(pieces.take(i + 1), ", "@));
                    }
                    i = i + 1;
                }
                assert(pieces.take(i as int) =~= pieces);
                out.append(")");
            },
        }
        proof {
            assert(out@ =~= text(self@, depth as nat, syms));
        }
        out
    }
}

// ---- change lists ----

/// Per-register record of the statements that use, store or load it.
pub struct ChangeList {
    pub uses: Vec<u64>,
    pub stores: Vec<u64>,
    pub loads: Vec<u64>,
    pub last_store: u64,
    pub last_load: u64,
}

pub ghost struct ChangeListV {
    pub uses: Seq<u64>,
    pub stores: Seq<u64>,
    pub loads: Seq<u64>,
    pub last_store: u64,
    pub last_load: u64,
}

impl View for ChangeList {
    type V = ChangeListV;

    open spec fn view(&self) -> ChangeListV {
        ChangeListV {
            uses: self.uses@,
            stores: self.stores@,
            loads: self.loads@,
            last_store: self.last_store,
            last_load: self.last_load,
        }
    }
}

/// A change list with nothing recorded.
pub open spec fn empty_list() -> ChangeListV {
    ChangeListV { uses: Seq::empty(), stores: Seq::empty(), loads: Seq::empty(), last_store: 0, last_load: 0 }
}

/// `c` after statement `id` stores to (`store`) or loads from the register.
pub open spec fn noted(c: ChangeListV, store: bool, id: u64) -> ChangeListV {
    if store {
        ChangeListV { stores: c.stores.push(id), last_store: id, uses: c.uses.push(id), ..c }
    } else {
        ChangeListV { loads: c.loads.push(id), last_load: id, uses: c.uses.push(id), ..c }
    }
}

impl ChangeList {
    pub fn add_store(&mut self, id: u64)
        ensures
            final(self)@ == noted(old(self)@, true, id),
    {
        self.stores.push(id);
        self.last_store = id;
        self.add_use(id);
    }

    pub fn add_load(&mut self, id: u64)
        ensures
            final(self)@ == noted(old(self)@, false, id),
    {
        self.loads.push(id);
        self.last_load = id;
        self.add_use(id);
    }

    pub fn add_use(&mut self, id: u64)
        ensures
            final(self)@ == (ChangeListV { uses: old(self)@.uses.push(id), ..old(self)@ }),
    {
        self.uses.push(id);
    }
}

/// The change lists by register name, in order of first appearance.
pub type Lists = Seq<(Seq<char>, ChangeListV)>;

pub open spec fn list_names(l: Lists) -> Seq<Seq<char>> {
    Seq::new(l.len(), |i: int| l[i].0)
}

/// `l` after statement `id` stores to or loads from register `name`: its
/// list is extended, or a new list is appended.
pub open spec fn record(l: Lists, name: Seq<char>, store: bool, id: u64) -> Lists {
    if exists|i: int| 0 <= i < l.len() && l[i].0 == name {
        let i = choose|i: int| 0 <= i < l.len() && l[i].0 == name;
        l.update(i, (name, noted(l[i].1, store, id)))
    } else {
        l.push((name, noted(empty_list(), store, id)))
    }
}

/// `l` after all of `acc` (register name, whether a store) in order.
pub open spec fn record_all(l: Lists, acc: Seq<(Seq<char>, bool)>, id: u64) -> Lists
    decreases acc.len(),
{
    if acc.len() == 0 {
        l
    } else {
        let last = acc.last();
        record(record_all(l, acc.drop_last(), id), last.0, last.1, id)
    }
}

/// The register accesses of a statement, in order: for a store, the
/// destination register (a store) then the source register (a load); for a
/// group, those of its members.
pub open spec fn accesses(e: ExprV) -> Seq<(Seq<char>, bool)>
    decreases e,
{
    match e {
        ExprV::Store(d, s) => (match *d {
            ExprV::Register(r) => seq![(r, true)],
            _ => Seq::empty(),
        }) + (match *s {
            ExprV::Register(r) => seq![(r, false)],
            _ => Seq::empty(),
        }),
        ExprV::Group(g) => concat_all(member_accesses(g)),
        _ => Seq::empty(),
    }
}

pub open spec fn member_accesses(g: Seq<ExprV>) -> Seq<Seq<(Seq<char>, bool)>>
    decreases g,
{
    Seq::new(
        g.len(),
        |i: int|
            if 0 <= i < g.len() {
                accesses(g[i])
            } else {
                Seq::empty()
            },
    )
}

proof fn lemma_record_all_append(l: Lists, a: Seq<(Seq<char>, bool)>, b: Seq<(Seq<char>, bool)>, id: u64)
    ensures
        record_all(l, a + b, id) == record_all(record_all(l, a, id), b, id),
    decreases b.len(),
{
    if b.len() == 0 {
        assert(a + b =~= a);
    } else {
        lemma_record_all_append(l, a, b.drop_last(), id);
        assert((a + b).drop_last() =~= a + b.drop_last());
        assert((a + b).last() == b.last());
    }
}

/// Lifts instructions into statements and keeps the change lists.
pub struct ExprBuilder {
    pub next_id: u64,
    pub change_lists: Vec<(String, ChangeList)>,
}

impl ExprBuilder {
    pub open spec fn lists(&self) -> Lists {
        Seq::new(self.change_lists@.len(), |i: int| (self.change_lists@[i].0@, self.change_lists@[i].1@))
    }

    /// Register names occur at most once.
    pub open spec fn wf(&self) -> bool {
        forall|i: int, j: int| 0 <= i < j < self.change_lists@.len() ==> self.change_lists@[i].0@
            != self.change_lists@[j].0@
    }

    pub fn new() -> (b: ExprBuilder)
        ensures
            b.wf(),
            b.next_id == 1,
            b.lists().len() == 0,
    {
        ExprBuilder { next_id: 1, change_lists: Vec::new() }
    }

    /// The index of the list of register `s`, created empty if missing.
    fn add_change_list_if_not_created(&mut self, s: &String) -> (k: usize)
        requires
            old(self).wf(),
        ensures
            final(self).wf(),
            final(self).next_id == old(self).next_id,
            k < final(self).change_lists@.len(),
            final(self).change_lists@[k as int].0@ == s@,
            (exists|i: int| 0 <= i < old(self).lists().len() && old(self).lists()[i].0 == s@) ==> final(self).lists()
                == old(self).lists(),
            !(exists|i: int| 0 <= i < old(self).lists().len() && old(self).lists()[i].0 == s@) ==> final(self).lists()
                == old(self).lists().push((s@, empty_list())),
    {
        match crate::prog::find_key(&self.change_lists, s.as_str()) {
            Some(k) => {
                assert(self.lists()[k as int].0 == s@);
                k
            },
            None => {
                let ghost before = self.lists();
                self.change_lists.push(
                    (s.clone(), ChangeList { uses: Vec::new(), stores: Vec::new(), loads: Vec::new(), last_store: 0, last_load: 0 }),
                );
                proof {
                    assert(forall|i: int| 0 <= i < before.len() ==> before[i].0 != s@);
                    assert(self.change_lists@.last().1@ =~= empty_list());
                    assert(self.lists() =~= before.push((s@, empty_list())));
                }
                (self.change_lists.len() - 1) as usize
            },
        }
    }

    fn add_register_access(&mut self, s: &String, store: bool)
        requires
            old(self).wf(),
        ensures
            final(self).wf(),
            final(self).next_id == old(self).next_id,
            final(self).lists() == record(old(self).lists(), s@, store, old(self).next_id),
    {
        let ghost before = self.lists();
        let k = self.add_change_list_if_not_created(s);
        let ghost mid = self.lists();
        let id = self.next_id;
        let mut entry = self.change_lists.remove(k);
        if store {
            entry.1.add_store(id);
        } else {
            entry.1.add_load(id);
        }
        self.change_lists.insert(k, entry);
        proof {
            assert(self.lists() =~= mid.update(k as int, (s@, noted(mid[k as int].1, store, id))));
            if exists|i: int| 0 <= i < before.len() && before[i].0 == s@ {
                let i = choose|i: int| 0 <= i < before.len() && before[i].0 == s@;
                assert(i == k);
            } else {
                assert(k == before.len());
                assert(self.lists() =~= before.push((s@, noted(empty_list(), store, id))));
            }
        }
    }

    pub fn add_register_store(&mut self, s: &String)
        requires
            old(self).wf(),
        ensures
            final(self).wf(),
            final(self).next_id == old(self).next_id,
            final(self).lists() == record(old(self).lists(), s@, true, old(self).next_id),
    {
        self.add_register_access(s, true)
    }

    pub fn add_register_load(&mut self, s: &String)
        requires
            old(self).wf(),
        ensures
            final(self).wf(),
            final(self).next_id == old(self).next_id,
            final(self).lists() == record(old(self).lists(), s@, false, old(self).next_id),
    {
        self.add_register_access(s, false)
    }

    /// Lifts the `k`-th instruction of a listing and records its register
    /// accesses under the current statement id.
    pub fn decomp_instruction(&mut self, l: &InstructionListing, k: usize) -> (e: Expr)
        requires
            old(self).wf(),
            k < lifted(l).len(),
        ensures
            final(self).wf(),
            final(self).next_id == old(self).next_id,
            e@ == lifted(l)[k as int].1,
            final(self).lists() == record_all(old(self).lists(), accesses(e@), old(self).next_id),
    {
        let e = match l {
            InstructionListing::Rv(v) => *v[k].into_expr(),
            InstructionListing::X86(v) => *v[k].into_expr(),
            InstructionListing::Arm(v) => *v[k].into_expr(),
            InstructionListing::Unknown => Expr::Nop,
        };
        self.create_uses_in_expr(&e);
        e
    }

    /// Records every register access of a statement under the current id.
    pub fn create_uses_in_expr(&mut self, expr: &Expr)
        requires
            old(self).wf(),
        ensures
            final(self).wf(),
            final(self).next_id == old(self).next_id,
            final(self).lists() == record_all(old(self).lists(), accesses(expr@), old(self).next_id),
        decreases expr,
    {
        let ghost l0 = self.lists();
        let ghost id = self.next_id;
        match expr {
            Expr::Store(dest, src) => {
                let ghost da: Seq<(Seq<char>, bool)> = match dest@ {
                    ExprV::Register(r) => seq![(r, true)],
                    _ => Seq::empty(),
                };
                let ghost sa: Seq<(Seq<char>, bool)> = match src@ {
                    ExprV::Register(r) => seq![(r, false)],
                    _ => Seq::empty(),
                };
                match &**dest {
                    Expr::Register(r) => {
                        self.add_register_store(r);
                        proof {
                            reveal_with_fuel(record_all, 2);
                        }
                    },
                    _ => {},
                }
                assert(self.lists() == record_all(l0, da, id));
                let ghost l1 = self.lists();
                match &**src {
                    Expr::Register(r) => {
                        self.add_register_load(r);
                        proof {
                            reveal_with_fuel(record_all, 2);
                        }
                    },
                    _ => {},
                }
                assert(self.lists() == record_all(l1, sa, id));
                proof {
                    lemma_record_all_append(l0, da, sa, id);
                }
            },
            Expr::Group(group) => {
                let ghost gv = expr@->Group_0;
                let ghost parts = member_accesses(gv);
                let mut i: usize = 0;
                assert(parts.take(0) =~= Seq::<Seq<(Seq<char>, bool)>>::empty());
                while i < group.len()
                    invariant
                        i <= group@.len(),
                        gv.len() == group@.len(),
                        forall|j: int| 0 <= j < gv.len() ==> gv[j] == group@[j]@,
                        *expr == Expr::Group(*group),
                        parts.len() == gv.len(),
                        forall|j: int| 0 <= j < gv.len() ==> parts[j] == accesses(gv[j]),
                        self.wf(),
                        self.next_id == id,
                        self.lists() == record_all(l0, concat_all(parts.take(i as int)), id),
                    decreases group@.len() - i,
                {
                    proof {
                        assert(decreases_to!(*expr => (*expr)->Group_0));
                        assert(decreases_to!(*group => group@));
                        assert(decreases_to!(group@ => group@[i as int]));
                        lemma_record_all_append(l0, concat_all(parts.take(i as int)), parts[i as int], id);
                        assert(parts.take(i + 1).drop_last() =~= parts.take(i as int));
                    }
                    self.create_uses_in_expr(&group[i]);
                    i = i + 1;
                }
                assert(parts.take(i as int) =~= parts);
            },
            _ => {},
        }
    }
}

// ---- decompilation ----

/// Offsets and lifted statements of a listing, in order.
pub open spec fn lifted(l: &InstructionListing) -> Seq<(int, ExprV)> {
    match l {
        InstructionListing::Rv(v) => Seq::new(v@.len(), |i: int| (v@[i].offset as int, riscv::lift(v@[i]))),
        InstructionListing::X86(v) => Seq::new(v@.len(), |i: int| (v@[i].offset as int, x86::lift(v@[i]))),
        InstructionListing::Arm(v) => Seq::new(v@.len(), |i: int| (v@[i].offset as int, arm::lift(v@[i]))),
        InstructionListing::Unknown => Seq::empty(),
    }
}

/// The statement list: each lifted statement, preceded by a label when a
/// symbol sits at its address (`addr` plus its offset).
pub open spec fn ir(entries: Seq<(int, ExprV)>, addr: int, syms: Seq<(u64, Seq<char>)>) -> Seq<ExprV>
    decreases entries.len(),
{
    if entries.len() == 0 {
        Seq::empty()
    } else {
        let e = entries.last();
        ir(entries.drop_last(), addr, syms) + (match first_sym(syms, addr + e.0) {
            Some(n) => seq![ExprV::Label(n)],
            None => Seq::empty(),
        }) + seq![e.1]
    }
}

/// The views of a list of statements.
pub open spec fn stmt_views(v: Seq<Expr>) -> Seq<ExprV> {
    Seq::new(v.len(), |i: int| v[i]@)
}

/// The statements of a disassembly when its section is at `addr` with
/// symbols `syms`.
pub open spec fn statements(d: &Disassembly, addr: int, syms: Seq<(u64, Seq<char>)>) -> Seq<ExprV> {
    ir(lifted(&d.section.instructions), addr, syms)
}

/// Whether `r` is the statement list of `d`: with the address and symbols of
/// its section when the program has it, else at address zero without
/// symbols.
pub open spec fn decompiled(d: &Disassembly, r: Seq<ExprV>) -> bool {
    let names = keys(d.program.section_table@);
    let name = d.section.section_name@;
    &&& forall|i: int| #[trigger] first_at(names, name, i) ==> r == statements(
        d,
        d.program.section_table@[i].1.addr as int,
        section_symbols(d.program, d.program.section_table@[i].1),
    )
    &&& (forall|i: int| !#[trigger] first_at(names, name, i)) ==> r == statements(d, 0, Seq::empty())
}

/// Number of instructions in a listing.
fn listing_len(l: &InstructionListing) -> (n: usize)
    ensures
        n == lifted(l).len(),
{
    match l {
        InstructionListing::Rv(v) => v.len(),
        InstructionListing::X86(v) => v.len(),
        InstructionListing::Arm(v) => v.len(),
        InstructionListing::Unknown => 0,
    }
}

/// Offset of the `k`-th instruction of a listing.
fn entry_offset(l: &InstructionListing, k: usize) -> (o: usize)
    requires
        k < lifted(l).len(),
    ensures
        o == lifted(l)[k as int].0,
{
    match l {
        InstructionListing::Rv(v) => v[k].offset,
        InstructionListing::X86(v) => v[k].offset,
        InstructionListing::Arm(v) => v[k].offset,
        InstructionListing::Unknown => 0,
    }
}

/// The address and symbols of the disassembled section.
fn section_context(dis: &Disassembly) -> (r: (u64, Vec<(u64, String)>))
    ensures
        forall|i: int| #[trigger] first_at(keys(dis.program.section_table@), dis.section.section_name@, i) ==> r.0
            == dis.program.section_table@[i].1.addr && named_addrs(r.1@) == section_symbols(
            dis.program,
            dis.program.section_table@[i].1,
        ),
        (forall|i: int| !#[trigger] first_at(keys(dis.program.section_table@), dis.section.section_name@, i)) ==> r.0
            == 0 && r.1@.len() == 0,
{
    let program = &dis.program;
    match find_key(&program.section_table, dis.section.section_name.as_str()) {
        Some(k) => {
            let section = &program.section_table[k].1;
            let len = section.bytes.len() as u64;
            let stop = if section.addr <= u64::MAX - len {
                section.addr + len
            } else {
                u64::MAX
            };
            let symbols = program.get_symbols_in_section(section.addr, stop);
            proof {
                let names = keys(program.section_table@);
                assert(first_at(names, dis.section.section_name@, k as int));
                assert forall|i: int| #[trigger] first_at(names, dis.section.section_name@, i) implies i == k by {
                    if i < k {
                        assert(names[i] == program.section_table@[i].0@);
                    } else if i > k {
                        assert(names[k as int] == program.section_table@[k as int].0@);
                    }
                }
            }
            (section.addr, symbols)
        },
        None => {
            proof {
                let names = keys(program.section_table@);
                assert forall|i: int| !#[trigger] first_at(names, dis.section.section_name@, i) by {
                    if 0 <= i < names.len() {
                        assert(names[i] == program.section_table@[i].0@);
                    }
                }
            }
            (0, Vec::new())
        },
    }
}

/// Lifts every instruction of the disassembly, in order, inserting a label
/// before each instruction at a symbol's address. Each statement, label or
/// not, takes the next statement id for the change lists.
pub fn decomp_disassembly(dis: &Disassembly) -> (r: Vec<Expr>)
    ensures
        decompiled(dis, stmt_views(r@)),
{
    let listing = &dis.section.instructions;
    let n = listing_len(listing);
    let (addr, symbols) = section_context(dis);
    let ghost es = lifted(listing);
    let ghost syms = named_addrs(symbols@);
    let ghost target = ir(es, addr as int, syms);
    proof {
        if symbols@.len() == 0 {
            assert(syms =~= Seq::<(u64, Seq<char>)>::empty());
        }
    }
    assert(decompiled(dis, target));
    let mut expr_list: Vec<Expr> = Vec::new();
    let mut builder = ExprBuilder::new();
    let mut i: usize = 0;
    assert(es.take(0) =~= Seq::<(int, ExprV)>::empty());
    while i < n
        invariant
            i <= n,
            n == es.len(),
            es == lifted(listing),
            *listing == dis.section.instructions,
            syms == named_addrs(symbols@),
            builder.wf(),
            decompiled(dis, target),
            target == ir(es, addr as int, syms),
            stmt_views(expr_list@) == ir(es.take(i as int), addr as int, syms),
        decreases n - i,
    {
        let ghost before = stmt_views(expr_list@);
        let off = entry_offset(listing, i);
        let at = off as u128 + addr as u128;
        let found = if at <= u64::MAX as u128 {
            find_sym(&symbols, at as u64)
        } else {
            None
        };
        proof {
            if at > u64::MAX {
                lemma_no_symbol_beyond(syms, at as int);
            }
        }
        match found {
            Some(k) => {
                expr_list.push(Expr::Label(symbols[k].1.clone()));
                builder.next_id = if builder.next_id < u64::MAX {
                    builder.next_id + 1
                } else {
                    builder.next_id
                };
            },
            None => {},
        }
        let expr = builder.decomp_instruction(listing, i);
        expr_list.push(expr);
        builder.next_id = if builder.next_id < u64::MAX {
            builder.next_id + 1
        } else {
            builder.next_id
        };
        proof {
            assert(es.take(i + 1).drop_last() =~= es.take(i as int));
            assert(stmt_views(expr_list@) =~= ir(es.take(i + 1), addr as int, syms));
        }
        i = i + 1;
    }
    assert(es.take(i as int) =~= es);
    expr_list
}

/// No symbol sits at a negative address.
proof fn lemma_no_symbol_below(syms: Seq<(u64, Seq<char>)>, a: int)
    requires
        a < 0,
    ensures
        first_sym(syms, a) is None,
    decreases syms.len(),
{
    if syms.len() > 0 {
        lemma_no_symbol_below(syms.drop_first(), a);
    }
}

/// No symbol sits beyond the 64-bit address range.
proof fn lemma_no_symbol_beyond(syms: Seq<(u64, Seq<char>)>, a: int)
    requires
        a > u64::MAX,
    ensures
        first_sym(syms, a) is None,
    decreases syms.len(),
{
    if syms.len() > 0 {
        lemma_no_symbol_beyond(syms.drop_first(), a);
    }
}

/// One printed line of a statement list: a label, or an indented statement.
pub open spec fn stmt_line(e: ExprV, syms: Seq<(u64, Seq<char>)>) -> Seq<char> {
    match e {
        ExprV::Label(l) => l + ":\n"@,
        _ => "    "@ + text(e, 0, syms) + "\n"@,
    }
}

/// The pseudocode of a statement list for the section at `addr`.
pub open spec fn listing_text(addr: nat, stmts: Seq<ExprV>, syms: Seq<(u64, Seq<char>)>) -> Seq<char> {
    "fn sub_"@ + hex_pad(addr, 8) + ":\n"@ + concat_all(Seq::new(stmts.len(), |i: int| stmt_line(stmts[i], syms)))
}

fn print_statements(addr: u64, exprs: &Vec<Expr>, symbols: &Vec<(u64, String)>, lang: Language) -> (s: String)
    ensures
        s@ == listing_text(addr as nat, stmt_views(exprs@), named_addrs(symbols@)),
{
    let ghost syms = named_addrs(symbols@);
    let ghost lines = Seq::new(exprs@.len(), |i: int| stmt_line(exprs@[i]@, syms));
    let mut out = String::from_str("fn sub_");
    push_hex(&mut out, addr, 8);
    out.append(":\n");
    let ghost head = out@;
    let mut i: usize = 0;
    assert(lines.take(0) =~= Seq::<Seq<char>>::empty());
    while i < exprs.len()
        invariant
            i <= exprs@.len(),
            syms == named_addrs(symbols@),
            lines == Seq::new(exprs@.len(), |i: int| stmt_line(exprs@[i]@, syms)),
            out@ == head + concat_all(lines.take(i as int)),
        decreases exprs@.len() - i,
    {
        match &exprs[i] {
            Expr::Label(l) => {
                out.append(l.as_str());
                out.append(":\n");
            },
            e => {
                out.append("    ");
                out.append(e.print(0, symbols, lang).as_str());
                out.append("\n");
            },
        }
        proof {
            assert(lines.take(i + 1).drop_last() =~= lines.take(i as int));
            assert(out@ =~= head + concat_all(lines.take(i + 1)));
        }
        i = i + 1;
    }
    assert(lines.take(i as int) =~= lines);
    assert(Seq::new(stmt_views(exprs@).len(), |i: int| stmt_line(stmt_views(exprs@)[i], syms)) =~= lines);
    out
}

/// A decompiled disassembly: its statements and the target language.
pub struct Decomp {
    pub disassembly: Disassembly,
    pub dest_lang: Language,
    pub expr_list: Vec<Expr>,
}

impl Decomp {
    /// The statements, in order.
    pub fn exprs(&self) -> (r: &Vec<Expr>)
        ensures
            r == &self.expr_list,
    {
        &self.expr_list
    }

    /// The statements as pseudocode under a `fn sub_<address>:` header; calls
    /// and jumps to a symbol's address print the symbol's name.
    pub fn print(&self) -> (s: String)
        ensures
            forall|i: int| #[trigger] first_at(keys(self.disassembly.program.section_table@), self.disassembly.section.section_name@, i)
                ==> s@ == listing_text(
                self.disassembly.program.section_table@[i].1.addr as nat,
                stmt_views(self.expr_list@),
                section_symbols(self.disassembly.program, self.disassembly.program.section_table@[i].1),
            ),
            (forall|i: int| !#[trigger] first_at(keys(self.disassembly.program.section_table@), self.disassembly.section.section_name@, i))
                ==> s@ == listing_text(0, stmt_views(self.expr_list@), Seq::empty()),
    {
        let (addr, symbols) = section_context(&self.disassembly);
        proof {
            if symbols@.len() == 0 {
                assert(named_addrs(symbols@) =~= Seq::<(u64, Seq<char>)>::empty());
            }
        }
        print_statements(addr, &self.expr_list, &symbols, self.dest_lang)
    }
}

/// Lifts a disassembly.
pub fn decomp_program(dis: Disassembly, dest_lang: Language) -> (d: Decomp)
    ensures
        decompiled(&d.disassembly, stmt_views(d.expr_list@)),
        d.disassembly == dis,
        d.dest_lang == dest_lang,
{
    let expr_list = decomp_disassembly(&dis);
    Decomp { disassembly: dis, dest_lang, expr_list }
}

/// Loads, disassembles and lifts a program from raw bytes.
pub fn decomp_program_from_bytes(bytes: &[u8], dest_lang: Language) -> (d: Decomp)
    ensures
        disassembly_of(d.disassembly.program, &d.disassembly),
        crate::prog::loaded_from(bytes@, d.disassembly.program),
        crate::query::file_type(bytes@) == crate::query::FileType::RawBinary ==> crate::prog::is_raw_program(
            d.disassembly.program,
            bytes@,
        ),
        decompiled(&d.disassembly, stmt_views(d.expr_list@)),
        d.dest_lang == dest_lang,
{
    let dis = disassemble(bytes);
    decomp_program(dis, dest_lang)
}

// ---- laws ----

/// Lifting depends on the instructions alone: two listings of the same
/// instructions lift to structurally equal statements.
pub proof fn lemma_lifting_is_deterministic(l1: &InstructionListing, l2: &InstructionListing)
    requires
        match (l1, l2) {
            (InstructionListing::Rv(a), InstructionListing::Rv(b)) => a@ == b@,
            (InstructionListing::X86(a), InstructionListing::X86(b)) => a@ == b@,
            (InstructionListing::Arm(a), InstructionListing::Arm(b)) => a@ == b@,
            (InstructionListing::Unknown, InstructionListing::Unknown) => true,
            _ => false,
        },
    ensures
        lifted(l1) == lifted(l2),
{
}

/// Disassembling the same program twice and lifting each result yields the
/// same statements.
pub proof fn lemma_disassembly_is_deterministic(
    p: Program,
    d1: &Disassembly,
    d2: &Disassembly,
    r1: Seq<ExprV>,
    r2: Seq<ExprV>,
)
    requires
        disassembly_of(p, d1),
        disassembly_of(p, d2),
        decompiled(d1, r1),
        decompiled(d2, r2),
    ensures
        r1 == r2,
{
    let names = keys(p.section_table@);
    let name = chosen_name(p);
    let kind = machine_kind(p.machine_type@);
    if exists|i: int| first_at(names, name, i) {
        let i = choose|i: int| first_at(names, name, i);
        let bytes = p.section_table@[i].1.bytes@;
        assert(listing_matches(&d1.section.instructions, kind, bytes));
        assert(listing_matches(&d2.section.instructions, kind, bytes));
        lemma_lifting_is_deterministic(&d1.section.instructions, &d2.section.instructions);
    } else {
        lemma_lifting_is_deterministic(&d1.section.instructions, &d2.section.instructions);
    }
}

} // verus!
