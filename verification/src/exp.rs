//! The debugger's expression language: register names, literals, symbols,
//! C-like unary and binary operators; parsing, constant folding and
//! evaluation against a CPU core.
use vstd::prelude::*;
use crate::mips::{lookup_symbol, MipsCore, SymbolTable};
use crate::text::message;

pub mod lexer;
pub mod parser;
pub mod regs;

pub use regs::{parse_reg_target, read_reg_target, write_reg_target, RegTarget};

use lexer::tokenize;
use parser::Parser;

verus! {

#[derive(Debug, Clone, Copy, PartialEq, Eq, Structural)]
pub enum UnaryOp {
    Neg,
    Not,
    BitNot,
}

#[derive(Debug, Clone, Copy, PartialEq, Eq, Structural)]
pub enum BinaryOp {
    Add,
    Sub,
    Mul,
    Div,
    Rem,
    And,
    Or,
    Xor,
    Shl,
    Shr,
    Eq,
    Ne,
    Lt,
    Le,
    Gt,
    Ge,
    LogAnd,
    LogOr,
}

#[derive(Debug)]
pub enum Expr {
    Literal(u64),
    Register(RegTarget),
    Symbol(String),
    Unary(UnaryOp, Box<Expr>),
    Binary(BinaryOp, Box<Expr>, Box<Expr>),
}

/// The mathematical form of an expression: symbol names as character
/// sequences.
pub ghost enum SpecExpr {
    Literal(u64),
    Register(RegTarget),
    Symbol(Seq<char>),
    Unary(UnaryOp, Box<SpecExpr>),
    Binary(BinaryOp, Box<SpecExpr>, Box<SpecExpr>),
}

impl Clone for Expr {
    /// A copy of the expression, node for node.
    fn clone(&self) -> (r: Self)
        ensures
            r@ == self@,
        decreases self,
    {
        match self {
            Expr::Literal(v) => Expr::Literal(*v),
            Expr::Register(t) => Expr::Register(*t),
            Expr::Symbol(name) => Expr::Symbol(name.clone()),
            Expr::Unary(op, x) => {
                let c = Expr::clone(&**x);
                Expr::Unary(*op, Box::new(c))
            },
            Expr::Binary(op, l, r) => {
                let cl = Expr::clone(&**l);
                let cr = Expr::clone(&**r);
                Expr::Binary(*op, Box::new(cl), Box::new(cr))
            },
        }
    }
}

impl View for Expr {
    type V = SpecExpr;

    open spec fn view(&self) -> SpecExpr
        decreases self,
    {
        match self {
            Expr::Literal(v) => SpecExpr::Literal(*v),
            Expr::Register(r) => SpecExpr::Register(*r),
            Expr::Symbol(s) => SpecExpr::Symbol(s@),
            Expr::Unary(op, e) => SpecExpr::Unary(*op, Box::new((**e).view())),
            Expr::Binary(op, l, r) => SpecExpr::Binary(
                *op,
                Box::new((**l).view()),
                Box::new((**r).view()),
            ),
        }
    }
}

/// Every register an expression names has a number below 32.
pub open spec fn expr_valid(e: SpecExpr) -> bool
    decreases e,
{
    match e {
        SpecExpr::Register(r) => r.valid(),
        SpecExpr::Unary(_, x) => expr_valid(*x),
        SpecExpr::Binary(_, l, r) => expr_valid(*l) && expr_valid(*r),
        _ => true,
    }
}

/// The symbol entries an optional table holds.
pub open spec fn symbols_view(symbols: Option<&SymbolTable>) -> Option<Seq<(Seq<char>, u64)>> {
    match symbols {
        Some(t) => Some(t@),
        None => None,
    }
}

/// A 32-bit address with bit 31 set stands for a sign-extended kernel
/// address.
pub open spec fn sign_extend_addr(addr: u64) -> u64 {
    if 0x8000_0000 <= addr <= 0xFFFF_FFFF {
        (addr + 0xFFFF_FFFF_0000_0000) as u64
    } else {
        addr
    }
}

fn sign_extend(addr: u64) -> (r: u64)
    ensures
        r == sign_extend_addr(addr),
{
    if 0x8000_0000 <= addr && addr <= 0xFFFF_FFFF {
        addr + 0xFFFF_FFFF_0000_0000
    } else {
        addr
    }
}

/// Result of a unary operator. Negation is two's complement.
pub open spec fn unary_result(op: UnaryOp, v: u64) -> u64 {
    match op {
        UnaryOp::Neg => vstd::wrapping::u64_specs::wrapping_sub(0, v),
        UnaryOp::Not => if v == 0 {
            1
        } else {
            0
        },
        UnaryOp::BitNot => !v,
    }
}

pub open spec fn bool_u64(b: bool) -> u64 {
    if b {
        1
    } else {
        0
    }
}

/// Result of a binary operator; `None` for a division or remainder by zero.
/// Arithmetic wraps; shifts take the shift amount modulo 64 (of its low 32
/// bits).
pub open spec fn binary_result(op: BinaryOp, l: u64, r: u64) -> Option<u64> {
    match op {
        BinaryOp::Add => Some(vstd::wrapping::u64_specs::wrapping_add(l, r)),
        BinaryOp::Sub => Some(vstd::wrapping::u64_specs::wrapping_sub(l, r)),
        BinaryOp::Mul => Some(vstd::wrapping::u64_specs::wrapping_mul(l, r)),
        BinaryOp::Div => if r == 0 {
            None
        } else {
            Some(l / r)
        },
        BinaryOp::Rem => if r == 0 {
            None
        } else {
            Some(l % r)
        },
        BinaryOp::And => Some(l & r),
        BinaryOp::Or => Some(l | r),
        BinaryOp::Xor => Some(l ^ r),
        BinaryOp::Shl => Some(vstd::wrapping::u64_specs::wrapping_shl(l, r as u32)),
        BinaryOp::Shr => Some(vstd::wrapping::u64_specs::wrapping_shr(l, r as u32)),
        BinaryOp::Eq => Some(bool_u64(l == r)),
        BinaryOp::Ne => Some(bool_u64(l != r)),
        BinaryOp::Lt => Some(bool_u64(l < r)),
        BinaryOp::Le => Some(bool_u64(l <= r)),
        BinaryOp::Gt => Some(bool_u64(l > r)),
        BinaryOp::Ge => Some(bool_u64(l >= r)),
        BinaryOp::LogAnd => Some(bool_u64(l != 0 && r != 0)),
        BinaryOp::LogOr => Some(bool_u64(l != 0 || r != 0)),
    }
}

/// The value of an expression, or the message that evaluation fails with.
pub open spec fn eval_spec(
    e: SpecExpr,
    core: MipsCore,
    symbols: Option<Seq<(Seq<char>, u64)>>,
) -> Result<u64, Seq<char>>
    decreases e,
{
    match e {
        SpecExpr::Literal(v) => Ok(v),
        SpecExpr::Register(r) => Ok(crate::exp::regs::reg_value(r, core)),
        SpecExpr::Symbol(name) => match symbols {
            Some(syms) => match lookup_symbol(syms, name) {
                Some(addr) => Ok(sign_extend_addr(addr)),
                None => Err("Symbol not found: "@ + name),
            },
            None => Err("No symbol table available to resolve: "@ + name),
        },
        SpecExpr::Unary(op, x) => match eval_spec(*x, core, symbols) {
            Ok(v) => Ok(unary_result(op, v)),
            Err(m) => Err(m),
        },
        SpecExpr::Binary(op, l, r) => match eval_spec(*l, core, symbols) {
            Err(m) => Err(m),
            Ok(lv) => match eval_spec(*r, core, symbols) {
                Err(m) => Err(m),
                Ok(rv) => match binary_result(op, lv, rv) {
                    Some(v) => Ok(v),
                    None => Err("Division by zero"@),
                },
            },
        },
    }
}

/// Constant folding: symbols the table knows become literals, and operators
/// whose operands are literals are computed (a division by zero is left
/// alone).
pub open spec fn fold_spec(e: SpecExpr, symbols: Option<Seq<(Seq<char>, u64)>>) -> SpecExpr
    decreases e,
{
    match e {
        SpecExpr::Symbol(name) => match symbols {
            Some(syms) => match lookup_symbol(syms, name) {
                Some(addr) => SpecExpr::Literal(sign_extend_addr(addr)),
                None => e,
            },
            None => e,
        },
        SpecExpr::Unary(op, x) => {
            let f = fold_spec(*x, symbols);
            match f {
                SpecExpr::Literal(v) => SpecExpr::Literal(unary_result(op, v)),
                _ => SpecExpr::Unary(op, Box::new(f)),
            }
        },
        SpecExpr::Binary(op, l, r) => {
            let fl = fold_spec(*l, symbols);
            let fr = fold_spec(*r, symbols);
            if fl is Literal && fr is Literal && binary_result(op, fl->Literal_0, fr->Literal_0) is Some {
                SpecExpr::Literal(binary_result(op, fl->Literal_0, fr->Literal_0).unwrap())
            } else {
                SpecExpr::Binary(op, Box::new(fl), Box::new(fr))
            }
        },
        _ => e,
    }
}

fn unary_apply(op: UnaryOp, v: u64) -> (r: u64)
    ensures
        r == unary_result(op, v),
{
    match op {
        UnaryOp::Neg => 0u64.wrapping_sub(v),
        UnaryOp::Not => if v == 0 {
            1
        } else {
            0
        },
        UnaryOp::BitNot => !v,
    }
}

fn binary_apply(op: BinaryOp, l: u64, r: u64) -> (res: Option<u64>)
    ensures
        res == binary_result(op, l, r),
{
    match op {
        BinaryOp::Add => Some(l.wrapping_add(r)),
        BinaryOp::Sub => Some(l.wrapping_sub(r)),
        BinaryOp::Mul => Some(l.wrapping_mul(r)),
        BinaryOp::Div => if r == 0 {
            None
        } else {
            Some(l / r)
        },
        BinaryOp::Rem => if r == 0 {
            None
        } else {
            Some(l % r)
        },
        BinaryOp::And => Some(l & r),
        BinaryOp::Or => Some(l | r),
        BinaryOp::Xor => Some(l ^ r),
        BinaryOp::Shl => Some(l.wrapping_shl(r as u32)),
        BinaryOp::Shr => Some(l.wrapping_shr(r as u32)),
        BinaryOp::Eq => Some(if l == r { 1 } else { 0 }),
        BinaryOp::Ne => Some(if l != r { 1 } else { 0 }),
        BinaryOp::Lt => Some(if l < r { 1 } else { 0 }),
        BinaryOp::Le => Some(if l <= r { 1 } else { 0 }),
        BinaryOp::Gt => Some(if l > r { 1 } else { 0 }),
        BinaryOp::Ge => Some(if l >= r { 1 } else { 0 }),
        BinaryOp::LogAnd => Some(if l != 0 && r != 0 { 1 } else { 0 }),
        BinaryOp::LogOr => Some(if l != 0 || r != 0 { 1 } else { 0 }),
    }
}

fn lookup(symbols: Option<&SymbolTable>, name: &String) -> (r: Option<u64>)
    ensures
        r == (match symbols_view(symbols) {
            Some(syms) => lookup_symbol(syms, name@),
            None => None,
        }),
{
    match symbols {
        Some(syms) => syms.get_addr(name.as_str()),
        None => None,
    }
}

impl Expr {
    /// Evaluates the expression against `core`, resolving symbols in
    /// `symbols`.
    pub fn eval(&self, core: &MipsCore, symbols: Option<&SymbolTable>) -> (r: Result<u64, String>)
        requires
            expr_valid(self@),
        ensures
            match r {
                Ok(v) => eval_spec(self@, *core, symbols_view(symbols)) == Ok::<u64, Seq<char>>(v),
                Err(m) => eval_spec(self@, *core, symbols_view(symbols)) == Err::<u64, Seq<char>>(m@),
            },
        decreases self,
    {
        match self {
            Expr::Literal(val) => Ok(*val),
            Expr::Register(reg) => Ok(read_reg_target(reg, core)),
            Expr::Symbol(name) => {
                match symbols {
                    Some(syms) => match syms.get_addr(name.as_str()) {
                        Some(addr) => Ok(sign_extend(addr)),
                        None => Err(message("Symbol not found: ", name.as_str())),
                    },
                    None => Err(message("No symbol table available to resolve: ", name.as_str())),
                }
            },
            Expr::Unary(op, expr) => {
                match expr.eval(core, symbols) {
                    Ok(val) => Ok(unary_apply(*op, val)),
                    Err(m) => Err(m),
                }
            },
            Expr::Binary(op, lhs, rhs) => {
                let l = match lhs.eval(core, symbols) {
                    Ok(v) => v,
                    Err(m) => {
                        return Err(m);
                    },
                };
                let r = match rhs.eval(core, symbols) {
                    Ok(v) => v,
                    Err(m) => {
                        return Err(m);
                    },
                };
                match binary_apply(*op, l, r) {
                    Some(v) => Ok(v),
                    None => Err(String::from_str("Division by zero")),
                }
            },
        }
    }

    /// Folds constant sub-expressions (see `fold_spec`).
    pub fn fold(self, symbols: Option<&SymbolTable>) -> (r: Self)
        ensures
            r@ == fold_spec(self@, symbols_view(symbols)),
            expr_valid(self@) ==> expr_valid(r@),
        decreases self,
    {
        match self {
            Expr::Symbol(name) => {
                match lookup(symbols, &name) {
                    Some(addr) => Expr::Literal(sign_extend(addr)),
                    None => Expr::Symbol(name),
                }
            },
            Expr::Unary(op, expr) => {
                let folded = (*expr).fold(symbols);
                match folded {
                    Expr::Literal(val) => Expr::Literal(unary_apply(op, val)),
                    _ => Expr::Unary(op, Box::new(folded)),
                }
            },
            Expr::Binary(op, lhs, rhs) => {
                let l = (*lhs).fold(symbols);
                let r = (*rhs).fold(symbols);
                let lit = match (&l, &r) {
                    (Expr::Literal(lv), Expr::Literal(rv)) => binary_apply(op, *lv, *rv),
                    _ => None,
                };
                match lit {
                    Some(val) => Expr::Literal(val),
                    None => Expr::Binary(op, Box::new(l), Box::new(r)),
                }
            },
            _ => self,
        }
    }

    /// Parses `input` (see `parse_spec`).
    pub fn parse(input: &str) -> (r: Result<Self, String>)
        ensures
            match r {
                Ok(e) => parse_spec(input@) == Ok::<SpecExpr, Seq<char>>(e@) && expr_valid(e@),
                Err(m) => parse_spec(input@) == Err::<SpecExpr, Seq<char>>(m@),
            },
    {
        let tokens = match tokenize(input) {
            Ok(t) => t,
            Err(m) => {
                return Err(m);
            },
        };
        let mut p = Parser::new(tokens);
        p.parse_expr(0)
    }
}

/// What `Expr::parse` gives: tokenize, then parse one expression from the
/// front of the tokens (tokens after it are ignored).
pub open spec fn parse_spec(input: Seq<char>) -> Result<SpecExpr, Seq<char>> {
    match lexer::lex_from(input, 0) {
        Err(m) => Err(m),
        Ok(toks) => match parser::parse_expr_s(toks, 0, 0) {
            Err(m) => Err(m),
            Ok(res) => Ok(res.0),
        },
    }
}

/// Parses, folds and evaluates `input`.
pub fn parse_and_eval(input: &str, core: &MipsCore, symbols: Option<&SymbolTable>) -> (r: Result<
    u64,
    String,
>)
    ensures
        match parse_spec(input@) {
            Err(m) => r is Err && r->Err_0@ == m,
            Ok(e) => match eval_spec(fold_spec(e, symbols_view(symbols)), *core, symbols_view(symbols)) {
                Ok(v) => r == Ok::<u64, String>(v),
                Err(m) => r is Err && r->Err_0@ == m,
            },
        },
{
    let expr = match Expr::parse(input) {
        Ok(e) => e,
        Err(m) => {
            return Err(m);
        },
    };
    let folded = expr.fold(symbols);
    folded.eval(core, symbols)
}

/// Parses and folds `input`.
pub fn parse_and_fold(input: &str, symbols: Option<&SymbolTable>) -> (r: Result<Expr, String>)
    ensures
        match parse_spec(input@) {
            Err(m) => r is Err && r->Err_0@ == m,
            Ok(e) => r is Ok && r->Ok_0@ == fold_spec(e, symbols_view(symbols)),
        },
{
    let expr = match Expr::parse(input) {
        Ok(e) => e,
        Err(m) => {
            return Err(m);
        },
    };
    Ok(expr.fold(symbols))
}

/// Parse and evaluate a constant expression (no CPU registers, no symbol
/// table), such as "0xC00" or "1<<10".
pub fn eval_const_expr(input: &str) -> (r: Result<u64, String>)
    ensures
        match parse_spec(input@) {
            Err(m) => r is Err && r->Err_0@ == m,
            Ok(e) => match fold_spec(e, None) {
                SpecExpr::Literal(v) => r == Ok::<u64, String>(v),
                _ => r is Err && r->Err_0@ == "Expression '"@ + input@
                    + "' could not be reduced to a constant"@,
            },
        },
{
    let expr = match Expr::parse(input) {
        Ok(e) => e,
        Err(m) => {
            return Err(m);
        },
    };
    let folded = expr.fold(None);
    match folded {
        Expr::Literal(val) => Ok(val),
        _ => {
            let mut m = message("Expression '", input);
            m.append("' could not be reduced to a constant");
            Err(m)
        },
    }
}

/// Folding never changes what an expression evaluates to, for every core
/// and symbol table.
pub proof fn lemma_fold_preserves_eval(
    e: SpecExpr,
    core: MipsCore,
    symbols: Option<Seq<(Seq<char>, u64)>>,
)
    ensures
        eval_spec(fold_spec(e, symbols), core, symbols) == eval_spec(e, core, symbols),
    decreases e,
{
    match e {
        SpecExpr::Unary(op, x) => {
            lemma_fold_preserves_eval(*x, core, symbols);
        },
        SpecExpr::Binary(op, l, r) => {
            lemma_fold_preserves_eval(*l, core, symbols);
            lemma_fold_preserves_eval(*r, core, symbols);
        },
        _ => {},
    }
}

/// Folding a folded expression changes nothing.
pub proof fn lemma_fold_idempotent(e: SpecExpr, symbols: Option<Seq<(Seq<char>, u64)>>)
    ensures
        fold_spec(fold_spec(e, symbols), symbols) == fold_spec(e, symbols),
    decreases e,
{
    match e {
        SpecExpr::Unary(op, x) => {
            lemma_fold_idempotent(*x, symbols);
        },
        SpecExpr::Binary(op, l, r) => {
            lemma_fold_idempotent(*l, symbols);
            lemma_fold_idempotent(*r, symbols);
        },
        _ => {},
    }
}

/// Whether an expression names no register and no symbol.
pub open spec fn is_closed(e: SpecExpr) -> bool
    decreases e,
{
    match e {
        SpecExpr::Literal(_) => true,
        SpecExpr::Register(_) => false,
        SpecExpr::Symbol(_) => false,
        SpecExpr::Unary(_, x) => is_closed(*x),
        SpecExpr::Binary(_, l, r) => is_closed(*l) && is_closed(*r),
    }
}

/// An expression that names no register and no symbol folds, without a
/// symbol table, to a literal exactly when it evaluates without error (no
/// division or remainder by zero), and that literal is its value.
pub proof fn lemma_fold_closed(e: SpecExpr, core: MipsCore)
    requires
        is_closed(e),
    ensures
        match eval_spec(e, core, None) {
            Ok(v) => fold_spec(e, None) == SpecExpr::Literal(v),
            Err(_) => !(fold_spec(e, None) is Literal),
        },
    decreases e,
{
    match e {
        SpecExpr::Unary(op, x) => {
            lemma_fold_closed(*x, core);
        },
        SpecExpr::Binary(op, l, r) => {
            lemma_fold_closed(*l, core);
            lemma_fold_closed(*r, core);
        },
        _ => {},
    }
}

/// What each binary operator computes, stated by arithmetic on the operands:
/// addition, subtraction and multiplication wrap modulo 2^64; division is
/// the truncating quotient and remainder what is left of it, both refused
/// for a zero divisor; shifts take the low 32 bits of the amount modulo 64; comparisons and
/// logical operators give 1 for true and 0 for false.
pub proof fn lemma_binary_operators(l: u64, r: u64)
    ensures
        binary_result(BinaryOp::Add, l, r) == Some(((l + r) % 0x1_0000_0000_0000_0000) as u64),
        binary_result(BinaryOp::Sub, l, r) matches Some(v) && (v + r) % 0x1_0000_0000_0000_0000 == l,
        binary_result(BinaryOp::Mul, l, r) == Some(((l * r) % 0x1_0000_0000_0000_0000) as u64),
        r == 0 ==> binary_result(BinaryOp::Div, l, r) is None && binary_result(BinaryOp::Rem, l, r) is None,
        r != 0 ==> (binary_result(BinaryOp::Div, l, r) matches Some(q) && binary_result(
            BinaryOp::Rem,
            l,
            r,
        ) matches Some(m) && q * r + m == l && m < r),
        binary_result(BinaryOp::And, l, r) == Some(l & r),
        binary_result(BinaryOp::Or, l, r) == Some(l | r),
        binary_result(BinaryOp::Xor, l, r) == Some(l ^ r),
        binary_result(BinaryOp::Shl, l, r) == Some(l << ((r as u32) % 64)),
        binary_result(BinaryOp::Shr, l, r) == Some(l >> ((r as u32) % 64)),
        binary_result(BinaryOp::Eq, l, r) == Some(if l == r { 1u64 } else { 0u64 }),
        binary_result(BinaryOp::Ne, l, r) == Some(if l != r { 1u64 } else { 0u64 }),
        binary_result(BinaryOp::Lt, l, r) == Some(if l < r { 1u64 } else { 0u64 }),
        binary_result(BinaryOp::Le, l, r) == Some(if l <= r { 1u64 } else { 0u64 }),
        binary_result(BinaryOp::Gt, l, r) == Some(if l > r { 1u64 } else { 0u64 }),
        binary_result(BinaryOp::Ge, l, r) == Some(if l >= r { 1u64 } else { 0u64 }),
        binary_result(BinaryOp::LogAnd, l, r) == Some(if l != 0 && r != 0 { 1u64 } else { 0u64 }),
        binary_result(BinaryOp::LogOr, l, r) == Some(if l != 0 || r != 0 { 1u64 } else { 0u64 }),
{
    let m64: int = 0x1_0000_0000_0000_0000;
    let w = vstd::wrapping::u64_specs::wrapping_mul(l, r);
    assert(w == (l * r) % m64) by {
        if l * r > u64::MAX {
            assert(l * r >= 0) by (nonlinear_arith);
        }
        vstd::arithmetic::div_mod::lemma_mod_bound(l * r, m64);
    }
    let d = vstd::wrapping::u64_specs::wrapping_sub(l, r);
    assert((d + r) % m64 == l) by {
        if l >= r {
            vstd::arithmetic::div_mod::lemma_small_mod(l as nat, m64 as nat);
        } else {
            assert(d + r == l + m64);
            vstd::arithmetic::div_mod::lemma_mod_add_multiples_vanish(l as int, m64);
            vstd::arithmetic::div_mod::lemma_small_mod(l as nat, m64 as nat);
        }
    }
    let a = vstd::wrapping::u64_specs::wrapping_add(l, r);
    assert(a == (l + r) % m64) by {
        if l + r > u64::MAX {
            vstd::arithmetic::div_mod::lemma_mod_sub_multiples_vanish((l + r) as int, m64);
            vstd::arithmetic::div_mod::lemma_small_mod((l + r - m64) as nat, m64 as nat);
        } else {
            vstd::arithmetic::div_mod::lemma_small_mod((l + r) as nat, m64 as nat);
        }
    }
    if r != 0 {
        vstd::arithmetic::div_mod::lemma_fundamental_div_mod(l as int, r as int);
        vstd::arithmetic::div_mod::lemma_mod_bound(l as int, r as int);
        assert((l / r) * r == r * (l / r)) by (nonlinear_arith);
    }
}

/// What each unary operator computes: negation is the two's complement
/// (adding it back gives zero modulo 2^64), `!` gives 1 for zero and 0
/// otherwise, and `~` is the bitwise complement.
pub proof fn lemma_unary_operators(v: u64)
    ensures
        (unary_result(UnaryOp::Neg, v) + v) % 0x1_0000_0000_0000_0000 == 0,
        unary_result(UnaryOp::Not, v) == (if v == 0 { 1u64 } else { 0u64 }),
        unary_result(UnaryOp::BitNot, v) == !v,
{
    let n = unary_result(UnaryOp::Neg, v);
    if v == 0 {
        vstd::arithmetic::div_mod::lemma_small_mod(0, 0x1_0000_0000_0000_0000);
    } else {
        assert(n + v == 0x1_0000_0000_0000_0000int);
        vstd::arithmetic::div_mod::lemma_mod_self_0(0x1_0000_0000_0000_0000int);
    }
}

/// An operator applied to two numbers evaluates to the operator's result on
/// them, left operand first, and fails only on a zero divisor, with the
/// message `Division by zero`; a prefix operator on a number evaluates to its
/// result.
pub proof fn lemma_eval_operator_on_numbers(
    op: BinaryOp,
    u: UnaryOp,
    l: u64,
    r: u64,
    core: MipsCore,
    symbols: Option<Seq<(Seq<char>, u64)>>,
)
    ensures
        eval_spec(
            SpecExpr::Binary(op, Box::new(SpecExpr::Literal(l)), Box::new(SpecExpr::Literal(r))),
            core,
            symbols,
        ) == match binary_result(op, l, r) {
            Some(v) => Ok::<u64, Seq<char>>(v),
            None => Err("Division by zero"@),
        },
        eval_spec(SpecExpr::Unary(u, Box::new(SpecExpr::Literal(l))), core, symbols) == Ok::<
            u64,
            Seq<char>,
        >(unary_result(u, l)),
        binary_result(op, l, r) is None <==> ((op == BinaryOp::Div || op == BinaryOp::Rem) && r == 0),
{
    reveal_with_fuel(eval_spec, 2);
}

} // verus!
