//! The walker's model of a parsed source file: the tree shapes it descends
//! into, and the discovery of every local-variable binding in a function
//! body.
//!
//! Only the structure the walker reads is modelled: statement lists behind
//! blocks, loops, conditionals and unsafe regions, binding patterns, and the
//! source span of each type annotation. Every other expression shape is the
//! single variant `Other`, which contributes no variables.

use crate::span::SrcSpan;
use crate::span::check_span;
use crate::span::is_offset_table;
use crate::span::lines_offsets;
use crate::span::span_valid;
use vstd::prelude::*;

verus! {

/// A type annotation, identified by the source span its text occupies.
#[derive(Clone, Copy, Debug, PartialEq, Eq, Structural)]
pub struct TypeAnn {
    pub span: SrcSpan,
}

/// A binding pattern: a plain name, a name with an explicit type
/// annotation, or any other pattern shape, which the walker does not
/// understand.
#[derive(Debug)]
pub enum Pat {
    Ident { name: String },
    Typed { inner: Box<Pat>, ty: TypeAnn },
    Other,
}

/// A local-variable declaration.
#[derive(Debug)]
pub struct Local {
    pub pat: Pat,
}

/// A statement: a local declaration, an expression statement, or any other
/// statement shape, which contributes no variables.
#[derive(Debug)]
pub enum Stmt {
    Local(Local),
    Expr(Expr),
    Other,
}

/// An expression, reduced to the shapes that may contain further
/// statements. Every other expression shape is `Other`.
#[derive(Debug)]
pub enum Expr {
    /// A block expression.
    Block(Vec<Stmt>),
    /// A constant-evaluation block.
    ConstBlock(Vec<Stmt>),
    /// A parenthesized/grouped inner expression.
    Group(Box<Expr>),
    /// An unsafe-marked block.
    Unsafe(Vec<Stmt>),
    /// An indexed loop body.
    ForLoop(Vec<Stmt>),
    /// An unconditional loop body.
    Loop(Vec<Stmt>),
    /// A conditional loop body.
    While(Vec<Stmt>),
    /// A conditional: its then-branch statements, and an optional
    /// else-branch which is itself an expression (commonly another
    /// conditional or a block).
    If { then_branch: Vec<Stmt>, else_branch: Option<Box<Expr>> },
    /// Any expression shape that contains no statements of interest.
    Other,
}

/// A function's declared return type: absent, or an annotation.
#[derive(Clone, Copy, Debug, PartialEq, Eq, Structural)]
pub enum ReturnType {
    Default,
    Annotated(TypeAnn),
}

/// One function parameter: a typed pattern, or a receiver (`self`), which
/// the walker does not support.
#[derive(Debug)]
pub enum FnArg {
    Typed { pat: Pat, ty: TypeAnn },
    Receiver,
}

/// A top-level function declaration.
#[derive(Debug)]
pub struct ItemFn {
    pub name: String,
    pub args: Vec<FnArg>,
    pub output: ReturnType,
    pub body: Vec<Stmt>,
}

/// One struct field: its name (absent for tuple-struct fields, which the
/// walker does not support) and its type annotation.
#[derive(Debug)]
pub struct Field {
    pub name: Option<String>,
    pub ty: TypeAnn,
}

/// A top-level struct declaration.
#[derive(Debug)]
pub struct ItemStruct {
    pub name: String,
    pub fields: Vec<Field>,
}

/// A top-level item: a function, a struct, or any other item kind, which
/// the walker filters out.
#[derive(Debug)]
pub enum Item {
    Fn(ItemFn),
    Struct(ItemStruct),
    Other,
}

/// The name a binding pattern declares: the identifier itself, the
/// identifier behind an explicit type annotation, or nothing for a pattern
/// shape the walker does not understand.
pub open spec fn pat_name(p: Pat) -> Option<Seq<char>>
    decreases p,
{
    match p {
        Pat::Ident { name } => Some(name@),
        Pat::Typed { inner, ty } => pat_name(*inner),
        Pat::Other => None,
    }
}

/// Every local declared anywhere within an expression, in traversal order:
/// statements of blocks, constant blocks, unsafe regions and loop bodies,
/// both branches of a conditional, and nothing from any other shape.
pub open spec fn expr_vars(e: Expr) -> Seq<Local>
    decreases e,
{
    match e {
        Expr::Block(stmts) => stmts_vars(stmts@),
        Expr::ConstBlock(stmts) => stmts_vars(stmts@),
        Expr::Group(inner) => expr_vars(*inner),
        Expr::Unsafe(stmts) => stmts_vars(stmts@),
        Expr::ForLoop(stmts) => stmts_vars(stmts@),
        Expr::Loop(stmts) => stmts_vars(stmts@),
        Expr::While(stmts) => stmts_vars(stmts@),
        Expr::If { then_branch, else_branch } => match else_branch {
            Some(eb) => stmts_vars(then_branch@) + expr_vars(*eb),
            None => stmts_vars(then_branch@),
        },
        Expr::Other => Seq::empty(),
    }
}

/// The locals a single statement contributes: a local declaration
/// contributes itself; an expression statement is descended into.
pub open spec fn stmt_vars(st: Stmt) -> Seq<Local>
    decreases st,
{
    match st {
        Stmt::Local(l) => seq![l],
        Stmt::Expr(e) => expr_vars(e),
        Stmt::Other => Seq::empty(),
    }
}

/// The locals of a statement list, in order.
pub open spec fn stmts_vars(ss: Seq<Stmt>) -> Seq<Local>
    decreases ss,
{
    if ss.len() == 0 {
        Seq::empty()
    } else {
        stmts_vars(ss.drop_last()) + stmt_vars(ss.last())
    }
}

/// Collects the locals of every statement of a list, in order.
pub fn stmts_variables<'a>(stmts: &'a Vec<Stmt>) -> (r: Vec<&'a Local>)
    ensures
        r@.map_values(|l: &Local| *l) == stmts_vars(stmts@),
    decreases stmts,
{
    let mut acc: Vec<&'a Local> = Vec::new();
    assert(acc@.map_values(|l: &Local| *l) =~= stmts_vars(stmts@.take(0)));
    let mut i: usize = 0;
    while i < stmts.len()
        invariant
            i <= stmts@.len(),
            acc@.map_values(|l: &Local| *l) == stmts_vars(stmts@.take(i as int)),
        decreases stmts@.len() - i,
    {
        let ghost prev = acc@;
        let mut sub = stmts[i].variables();
        acc.append(&mut sub);
        proof {
            let f = |l: &Local| *l;
            assert(acc@.map_values(f) =~= prev.map_values(f) + stmt_vars(stmts@[i as int]));
            let t = stmts@.take(i + 1);
            assert(t.drop_last() =~= stmts@.take(i as int));
            assert(t.last() == stmts@[i as int]);
            assert(stmts_vars(t) == stmts_vars(stmts@.take(i as int)) + stmt_vars(
                stmts@[i as int],
            ));
        }
        i = i + 1;
    }
    assert(stmts@.take(i as int) =~= stmts@);
    acc
}

impl Expr {
    /// Every local declared anywhere within this expression, however
    /// deeply nested.
    pub fn variables<'a>(&'a self) -> (r: Vec<&'a Local>)
        ensures
            r@.map_values(|l: &Local| *l) == expr_vars(*self),
        decreases *self,
    {
        match self {
            Expr::Block(stmts) => stmts_variables(stmts),
            Expr::ConstBlock(stmts) => stmts_variables(stmts),
            Expr::Group(inner) => (&**inner).variables(),
            Expr::Unsafe(stmts) => stmts_variables(stmts),
            Expr::ForLoop(stmts) => stmts_variables(stmts),
            Expr::Loop(stmts) => stmts_variables(stmts),
            Expr::While(stmts) => stmts_variables(stmts),
            Expr::If { then_branch, else_branch } => {
                let mut acc = stmts_variables(then_branch);
                match else_branch {
                    Some(eb) => {
                        let ghost prev = acc@;
                        let mut more = (&**eb).variables();
                        acc.append(&mut more);
                        proof {
                            let f = |l: &Local| *l;
                            assert(acc@.map_values(f) =~= prev.map_values(f) + expr_vars(**eb));
                        }
                        acc
                    },
                    None => acc,
                }
            },
            Expr::Other => {
                let r: Vec<&'a Local> = Vec::new();
                assert(r@.map_values(|l: &Local| *l) =~= Seq::<Local>::empty());
                r
            },
        }
    }
}

impl Stmt {
    /// The locals this statement contributes: itself if it is a local
    /// declaration, those of the inner expression if it is an expression
    /// statement, and none otherwise.
    pub fn variables<'a>(&'a self) -> (r: Vec<&'a Local>)
        ensures
            r@.map_values(|l: &Local| *l) == stmt_vars(*self),
        decreases *self,
    {
        match self {
            Stmt::Local(l) => {
                let mut r: Vec<&'a Local> = Vec::new();
                r.push(l);
                assert(r@.map_values(|x: &Local| *x) =~= seq![*l]);
                r
            },
            Stmt::Expr(e) => e.variables(),
            Stmt::Other => {
                let r: Vec<&'a Local> = Vec::new();
                assert(r@.map_values(|l: &Local| *l) =~= Seq::<Local>::empty());
                r
            },
        }
    }
}

/// Every type-annotation span within a pattern lies inside the source text.
pub open spec fn pat_wf(p: Pat, src: Seq<char>) -> bool
    decreases p,
{
    match p {
        Pat::Ident { .. } => true,
        Pat::Typed { inner, ty } => span_valid(src, ty.span) && pat_wf(*inner, src),
        Pat::Other => true,
    }
}

/// Every type-annotation span within an expression lies inside the source
/// text.
pub open spec fn expr_wf(e: Expr, src: Seq<char>) -> bool
    decreases e,
{
    match e {
        Expr::Block(stmts) => stmts_wf(stmts@, src),
        Expr::ConstBlock(stmts) => stmts_wf(stmts@, src),
        Expr::Group(inner) => expr_wf(*inner, src),
        Expr::Unsafe(stmts) => stmts_wf(stmts@, src),
        Expr::ForLoop(stmts) => stmts_wf(stmts@, src),
        Expr::Loop(stmts) => stmts_wf(stmts@, src),
        Expr::While(stmts) => stmts_wf(stmts@, src),
        Expr::If { then_branch, else_branch } => match else_branch {
            Some(eb) => stmts_wf(then_branch@, src) && expr_wf(*eb, src),
            None => stmts_wf(then_branch@, src),
        },
        Expr::Other => true,
    }
}

/// Every type-annotation span within a statement lies inside the source
/// text.
pub open spec fn stmt_wf(st: Stmt, src: Seq<char>) -> bool
    decreases st,
{
    match st {
        Stmt::Local(l) => pat_wf(l.pat, src),
        Stmt::Expr(e) => expr_wf(e, src),
        Stmt::Other => true,
    }
}

/// Every type-annotation span within a statement list lies inside the
/// source text.
pub open spec fn stmts_wf(ss: Seq<Stmt>, src: Seq<char>) -> bool
    decreases ss,
{
    forall|i: int| 0 <= i < ss.len() ==> stmt_wf(#[trigger] ss[i], src)
}

/// Every type-annotation span of a parameter lies inside the source text.
pub open spec fn arg_wf(a: FnArg, src: Seq<char>) -> bool {
    match a {
        FnArg::Typed { pat, ty } => span_valid(src, ty.span) && pat_wf(pat, src),
        FnArg::Receiver => true,
    }
}

/// Every type-annotation span of a function declaration lies inside the
/// source text: its return type, its parameters, and its whole body.
pub open spec fn fn_wf(f: ItemFn, src: Seq<char>) -> bool {
    &&& match f.output {
        ReturnType::Default => true,
        ReturnType::Annotated(ty) => span_valid(src, ty.span),
    }
    &&& forall|i: int| 0 <= i < f.args@.len() ==> arg_wf(#[trigger] f.args@[i], src)
    &&& stmts_wf(f.body@, src)
}

/// Every field's type-annotation span lies inside the source text.
pub open spec fn struct_wf(s: ItemStruct, src: Seq<char>) -> bool {
    forall|i: int| 0 <= i < s.fields@.len() ==> span_valid(src, (#[trigger] s.fields@[i]).ty.span)
}

/// Every type-annotation span of an item lies inside the source text.
pub open spec fn item_wf(it: Item, src: Seq<char>) -> bool {
    match it {
        Item::Fn(f) => fn_wf(f, src),
        Item::Struct(s) => struct_wf(s, src),
        Item::Other => true,
    }
}

/// Every type-annotation span of a file's items lies inside its source
/// text. Spans handed to the walker must always originate from the same
/// source text, so the walker takes this as a precondition.
pub open spec fn items_wf(items: Seq<Item>, src: Seq<char>) -> bool {
    forall|i: int| 0 <= i < items.len() ==> item_wf(#[trigger] items[i], src)
}

/// Every pattern of a list of discovered locals lies inside the source
/// text.
pub open spec fn locals_wf(ls: Seq<Local>, src: Seq<char>) -> bool {
    forall|i: int| 0 <= i < ls.len() ==> pat_wf((#[trigger] ls[i]).pat, src)
}

proof fn lemma_locals_wf_concat(a: Seq<Local>, b: Seq<Local>, src: Seq<char>)
    requires
        locals_wf(a, src),
        locals_wf(b, src),
    ensures
        locals_wf(a + b, src),
{
    assert forall|i: int| 0 <= i < (a + b).len() implies pat_wf(((a + b)[i]).pat, src) by {
        if i < a.len() {
            assert((a + b)[i] == a[i]);
        } else {
            assert((a + b)[i] == b[i - a.len()]);
        }
    }
}

/// Every local discovered in a well-formed expression has a well-formed
/// pattern.
pub proof fn lemma_expr_vars_wf(e: Expr, src: Seq<char>)
    requires
        expr_wf(e, src),
    ensures
        locals_wf(expr_vars(e), src),
    decreases e,
{
    match e {
        Expr::Block(stmts) => lemma_stmts_vars_wf(stmts@, src),
        Expr::ConstBlock(stmts) => lemma_stmts_vars_wf(stmts@, src),
        Expr::Group(inner) => lemma_expr_vars_wf(*inner, src),
        Expr::Unsafe(stmts) => lemma_stmts_vars_wf(stmts@, src),
        Expr::ForLoop(stmts) => lemma_stmts_vars_wf(stmts@, src),
        Expr::Loop(stmts) => lemma_stmts_vars_wf(stmts@, src),
        Expr::While(stmts) => lemma_stmts_vars_wf(stmts@, src),
        Expr::If { then_branch, else_branch } => {
            lemma_stmts_vars_wf(then_branch@, src);
            match else_branch {
                Some(eb) => {
                    lemma_expr_vars_wf(*eb, src);
                    lemma_locals_wf_concat(stmts_vars(then_branch@), expr_vars(*eb), src);
                },
                None => {},
            }
        },
        Expr::Other => {},
    }
}

/// Every local a well-formed statement contributes has a well-formed
/// pattern.
pub proof fn lemma_stmt_vars_wf(st: Stmt, src: Seq<char>)
    requires
        stmt_wf(st, src),
    ensures
        locals_wf(stmt_vars(st), src),
    decreases st,
{
    match st {
        Stmt::Local(l) => {
            assert forall|i: int| 0 <= i < stmt_vars(st).len() implies pat_wf(
                (stmt_vars(st)[i]).pat,
                src,
            ) by {
                assert(stmt_vars(st)[i] == l);
            }
        },
        Stmt::Expr(e) => lemma_expr_vars_wf(e, src),
        Stmt::Other => {},
    }
}

/// Every local discovered in a well-formed statement list has a
/// well-formed pattern.
pub proof fn lemma_stmts_vars_wf(ss: Seq<Stmt>, src: Seq<char>)
    requires
        stmts_wf(ss, src),
    ensures
        locals_wf(stmts_vars(ss), src),
    decreases ss,
{
    if ss.len() > 0 {
        assert forall|i: int| 0 <= i < ss.drop_last().len() implies stmt_wf(
            #[trigger] ss.drop_last()[i],
            src,
        ) by {
            assert(ss.drop_last()[i] == ss[i]);
        }
        lemma_stmts_vars_wf(ss.drop_last(), src);
        lemma_stmt_vars_wf(ss.last(), src);
        lemma_locals_wf_concat(stmts_vars(ss.drop_last()), stmt_vars(ss.last()), src);
    }
}

/// Variable discovery is exhaustive across nesting: a single local declared
/// inside a loop, inside a conditional, inside an unsafe block is
/// discovered, exactly once.
pub proof fn lemma_nested_local_found_once(
    l: Local,
    loop_body: Vec<Stmt>,
    then_branch: Vec<Stmt>,
    unsafe_body: Vec<Stmt>,
)
    requires
        loop_body@ == seq![Stmt::Local(l)],
        then_branch@ == seq![Stmt::Expr(Expr::Loop(loop_body))],
        unsafe_body@ == seq![
            Stmt::Expr(Expr::If { then_branch: then_branch, else_branch: None }),
        ],
    ensures
        expr_vars(Expr::Unsafe(unsafe_body)) == seq![l],
{
    lemma_singleton_stmt_vars(loop_body@);
    assert(stmts_vars(loop_body@) =~= seq![l]);
    lemma_singleton_stmt_vars(then_branch@);
    assert(stmts_vars(then_branch@) =~= seq![l]);
    lemma_singleton_stmt_vars(unsafe_body@);
    assert(stmts_vars(unsafe_body@) =~= seq![l]);
}

/// The locals of a one-statement list are the locals of its statement.
proof fn lemma_singleton_stmt_vars(ss: Seq<Stmt>)
    requires
        ss.len() == 1,
    ensures
        stmts_vars(ss) == stmt_vars(ss[0]),
{
    assert(ss.drop_last() =~= Seq::<Stmt>::empty());
    assert(stmts_vars(ss.drop_last()) =~= Seq::<Local>::empty());
    assert(stmts_vars(ss) =~= stmt_vars(ss[0]));
}

/// An else-if chain yields the variables of every branch: those of the
/// first branch, then of the else-if branch, then of the final else block,
/// however deep the chain continues.
pub proof fn lemma_else_if_chain_vars(
    b1: Vec<Stmt>,
    b2: Vec<Stmt>,
    b3: Vec<Stmt>,
    e2: Box<Expr>,
    e3: Box<Expr>,
)
    requires
        *e3 == Expr::Block(b3),
        *e2 == (Expr::If { then_branch: b2, else_branch: Some(e3) }),
    ensures
        expr_vars((Expr::If { then_branch: b1, else_branch: Some(e2) })) == stmts_vars(b1@)
            + stmts_vars(b2@) + stmts_vars(b3@),
{
    assert(expr_vars(*e3) == stmts_vars(b3@));
    assert(expr_vars(*e2) == stmts_vars(b2@) + stmts_vars(b3@));
    assert(stmts_vars(b1@) + (stmts_vars(b2@) + stmts_vars(b3@)) =~= stmts_vars(b1@)
        + stmts_vars(b2@) + stmts_vars(b3@));
}

fn check_pat(p: &Pat, src: &str, table: &Vec<usize>) -> (r: bool)
    requires
        is_offset_table(table@, src@),
    ensures
        r == pat_wf(*p, src@),
    decreases *p,
{
    match p {
        Pat::Ident { .. } => true,
        Pat::Typed { inner, ty } => {
            if !check_span(&ty.span, src, table) {
                return false;
            }
            check_pat(&**inner, src, table)
        },
        Pat::Other => true,
    }
}

fn check_stmts(stmts: &Vec<Stmt>, src: &str, table: &Vec<usize>) -> (r: bool)
    requires
        is_offset_table(table@, src@),
    ensures
        r == stmts_wf(stmts@, src@),
    decreases stmts,
{
    let mut i: usize = 0;
    while i < stmts.len()
        invariant
            is_offset_table(table@, src@),
            i <= stmts@.len(),
            forall|j: int| 0 <= j < i ==> stmt_wf(#[trigger] stmts@[j], src@),
        decreases stmts@.len() - i,
    {
        if !check_stmt(&stmts[i], src, table) {
            return false;
        }
        i = i + 1;
    }
    true
}

fn check_stmt(st: &Stmt, src: &str, table: &Vec<usize>) -> (r: bool)
    requires
        is_offset_table(table@, src@),
    ensures
        r == stmt_wf(*st, src@),
    decreases *st,
{
    match st {
        Stmt::Local(l) => check_pat(&l.pat, src, table),
        Stmt::Expr(e) => check_expr(e, src, table),
        Stmt::Other => true,
    }
}

fn check_expr(e: &Expr, src: &str, table: &Vec<usize>) -> (r: bool)
    requires
        is_offset_table(table@, src@),
    ensures
        r == expr_wf(*e, src@),
    decreases *e,
{
    match e {
        Expr::Block(stmts) => check_stmts(stmts, src, table),
        Expr::ConstBlock(stmts) => check_stmts(stmts, src, table),
        Expr::Group(inner) => check_expr(&**inner, src, table),
        Expr::Unsafe(stmts) => check_stmts(stmts, src, table),
        Expr::ForLoop(stmts) => check_stmts(stmts, src, table),
        Expr::Loop(stmts) => check_stmts(stmts, src, table),
        Expr::While(stmts) => check_stmts(stmts, src, table),
        Expr::If { then_branch, else_branch } => {
            if !check_stmts(then_branch, src, table) {
                return false;
            }
            match else_branch {
                Some(eb) => check_expr(&**eb, src, table),
                None => true,
            }
        },
        Expr::Other => true,
    }
}

fn check_item(it: &Item, src: &str, table: &Vec<usize>) -> (r: bool)
    requires
        is_offset_table(table@, src@),
    ensures
        r == item_wf(*it, src@),
{
    match it {
        Item::Fn(f) => {
            match &f.output {
                ReturnType::Default => {},
                ReturnType::Annotated(ty) => {
                    if !check_span(&ty.span, src, table) {
                        return false;
                    }
                },
            }
            let mut i: usize = 0;
            while i < f.args.len()
                invariant
                    is_offset_table(table@, src@),
                    *it == Item::Fn(*f),
                    i <= f.args@.len(),
                    forall|j: int| 0 <= j < i ==> arg_wf(#[trigger] f.args@[j], src@),
                decreases f.args@.len() - i,
            {
                match &f.args[i] {
                    FnArg::Typed { pat, ty } => {
                        if !check_span(&ty.span, src, table) {
                            assert(!arg_wf(f.args@[i as int], src@));
                            return false;
                        }
                        if !check_pat(pat, src, table) {
                            assert(!arg_wf(f.args@[i as int], src@));
                            return false;
                        }
                    },
                    FnArg::Receiver => {},
                }
                i = i + 1;
            }
            check_stmts(&f.body, src, table)
        },
        Item::Struct(s) => {
            let mut i: usize = 0;
            while i < s.fields.len()
                invariant
                    is_offset_table(table@, src@),
                    *it == Item::Struct(*s),
                    i <= s.fields@.len(),
                    forall|j: int| 0 <= j < i ==> span_valid(src@, (#[trigger] s.fields@[j]).ty.span),
                decreases s.fields@.len() - i,
            {
                if !check_span(&s.fields[i].ty.span, src, table) {
                    assert(!span_valid(src@, s.fields@[i as int].ty.span));
                    return false;
                }
                i = i + 1;
            }
            true
        },
        Item::Other => true,
    }
}

/// Tests whether every type-annotation span of a file's items lies inside
/// its source text — the walker's precondition. A caller that obtained the
/// items and the text from the same file may rely on this holding; one that
/// cannot be sure calls this first.
pub fn check_file(items: &Vec<Item>, src: &String) -> (r: bool)
    ensures
        r == items_wf(items@, src@),
{
    let table = lines_offsets(src);
    let text = src.as_str();
    let mut i: usize = 0;
    while i < items.len()
        invariant
            is_offset_table(table@, src@),
            text@ == src@,
            i <= items@.len(),
            forall|j: int| 0 <= j < i ==> item_wf(#[trigger] items@[j], src@),
        decreases items@.len() - i,
    {
        if !check_item(&items[i], text, &table) {
            return false;
        }
        i = i + 1;
    }
    true
}

} // verus!
