//! Precedence-climbing parser over expression tokens.
use vstd::prelude::*;
use crate::exp::lexer::{tokens_view, SpecToken, Token};
use crate::exp::regs::{parse_reg_target, reg_target_of};
use crate::exp::{expr_valid, BinaryOp, Expr, SpecExpr, UnaryOp};
use crate::text::{chars_eq_str, message, str_chars};

verus! {

/// Precedence and meaning of a binary operator token.
pub open spec fn binop_of(op: Seq<char>) -> Option<(nat, BinaryOp)> {
    if op == "||"@ {
        Some((1, BinaryOp::LogOr))
    } else if op == "&&"@ {
        Some((2, BinaryOp::LogAnd))
    } else if op == "|"@ {
        Some((3, BinaryOp::Or))
    } else if op == "^"@ {
        Some((4, BinaryOp::Xor))
    } else if op == "&"@ {
        Some((5, BinaryOp::And))
    } else if op == "=="@ {
        Some((6, BinaryOp::Eq))
    } else if op == "!="@ {
        Some((6, BinaryOp::Ne))
    } else if op == "<"@ {
        Some((7, BinaryOp::Lt))
    } else if op == "<="@ {
        Some((7, BinaryOp::Le))
    } else if op == ">"@ {
        Some((7, BinaryOp::Gt))
    } else if op == ">="@ {
        Some((7, BinaryOp::Ge))
    } else if op == "<<"@ {
        Some((8, BinaryOp::Shl))
    } else if op == ">>"@ {
        Some((8, BinaryOp::Shr))
    } else if op == "+"@ {
        Some((9, BinaryOp::Add))
    } else if op == "-"@ {
        Some((9, BinaryOp::Sub))
    } else if op == "*"@ {
        Some((10, BinaryOp::Mul))
    } else if op == "/"@ {
        Some((10, BinaryOp::Div))
    } else if op == "%"@ {
        Some((10, BinaryOp::Rem))
    } else {
        None
    }
}

/// Prefix operator of an operator token.
pub open spec fn unop_of(op: Seq<char>) -> Option<UnaryOp> {
    if op == "-"@ {
        Some(UnaryOp::Neg)
    } else if op == "!"@ {
        Some(UnaryOp::Not)
    } else if op == "~"@ {
        Some(UnaryOp::BitNot)
    } else {
        None
    }
}

/// Parses an expression from `t[pos..]` whose binary operators bind at
/// least as tightly as `min`; gives the expression and the position after
/// it.
pub open spec fn parse_expr_s(t: Seq<SpecToken>, pos: int, min: nat) -> Result<
    (SpecExpr, int),
    Seq<char>,
>
    decreases t.len() - pos, 1int,
{
    if pos < 0 || pos > t.len() {
        Err(Seq::empty())
    } else {
        match parse_atom_s(t, pos) {
            Err(m) => Err(m),
            Ok(res) => if pos < res.1 <= t.len() {
                parse_loop_s(t, res.1, min, res.0)
            } else {
                Err(Seq::empty())
            },
        }
    }
}

/// Continues an expression `lhs` ending at `pos` with binary operators of
/// precedence at least `min`.
pub open spec fn parse_loop_s(t: Seq<SpecToken>, pos: int, min: nat, lhs: SpecExpr) -> Result<
    (SpecExpr, int),
    Seq<char>,
>
    decreases t.len() - pos, 2int,
{
    if 0 <= pos < t.len() && t[pos] is Op && binop_of(t[pos]->Op_0) is Some && binop_of(
        t[pos]->Op_0,
    ).unwrap().0 >= min {
        let (prec, op) = binop_of(t[pos]->Op_0).unwrap();
        match parse_expr_s(t, pos + 1, prec + 1) {
            Err(m) => Err(m),
            Ok(res) => if pos < res.1 <= t.len() {
                parse_loop_s(t, res.1, min, SpecExpr::Binary(op, Box::new(lhs), Box::new(res.0)))
            } else {
                Err(Seq::empty())
            },
        }
    } else {
        Ok((lhs, pos))
    }
}

/// Parses one operand at `t[pos]`: a literal, a register or symbol name, a
/// parenthesized expression or a prefix operator applied to an operand.
pub open spec fn parse_atom_s(t: Seq<SpecToken>, pos: int) -> Result<(SpecExpr, int), Seq<char>>
    decreases t.len() - pos, 0int,
{
    if pos < 0 || pos >= t.len() {
        Err("Unexpected end of expression"@)
    } else {
        match t[pos] {
            SpecToken::Literal(v) => Ok((SpecExpr::Literal(v), pos + 1)),
            SpecToken::Identifier(name) => Ok(
                (
                    match reg_target_of(name) {
                        Some(r) => SpecExpr::Register(r),
                        None => SpecExpr::Symbol(name),
                    },
                    pos + 1,
                ),
            ),
            SpecToken::LParen => match parse_expr_s(t, pos + 1, 0) {
                Err(m) => Err(m),
                Ok(res) => if 0 <= res.1 < t.len() && t[res.1] is RParen {
                    Ok((res.0, res.1 + 1))
                } else {
                    Err("Expected ')'"@)
                },
            },
            SpecToken::Op(o) => match unop_of(o) {
                None => Err("Unexpected operator: "@ + o),
                Some(u) => match parse_atom_s(t, pos + 1) {
                    Err(m) => Err(m),
                    Ok(res) => Ok((SpecExpr::Unary(u, Box::new(res.0)), res.1)),
                },
            },
            SpecToken::RParen => Err("Unexpected token: RParen"@),
        }
    }
}

pub struct Parser {
    pub tokens: Vec<Token>,
    pub pos: usize,
}

fn binop_exec(op: &String) -> (r: Option<(u8, BinaryOp)>)
    ensures
        match binop_of(op@) {
            Some(p) => r is Some && r->Some_0.0 as nat == p.0 && r->Some_0.1 == p.1,
            None => r is None,
        },
{
    let v = str_chars(op.as_str());
    let n = v.len();
    assert(v@.subrange(0, n as int) =~= v@);
    if chars_eq_str(&v, 0, n, "||") {
        Some((1, BinaryOp::LogOr))
    } else if chars_eq_str(&v, 0, n, "&&") {
        Some((2, BinaryOp::LogAnd))
    } else if chars_eq_str(&v, 0, n, "|") {
        Some((3, BinaryOp::Or))
    } else if chars_eq_str(&v, 0, n, "^") {
        Some((4, BinaryOp::Xor))
    } else if chars_eq_str(&v, 0, n, "&") {
        Some((5, BinaryOp::And))
    } else if chars_eq_str(&v, 0, n, "==") {
        Some((6, BinaryOp::Eq))
    } else if chars_eq_str(&v, 0, n, "!=") {
        Some((6, BinaryOp::Ne))
    } else if chars_eq_str(&v, 0, n, "<") {
        Some((7, BinaryOp::Lt))
    } else if chars_eq_str(&v, 0, n, "<=") {
        Some((7, BinaryOp::Le))
    } else if chars_eq_str(&v, 0, n, ">") {
        Some((7, BinaryOp::Gt))
    } else if chars_eq_str(&v, 0, n, ">=") {
        Some((7, BinaryOp::Ge))
    } else if chars_eq_str(&v, 0, n, "<<") {
        Some((8, BinaryOp::Shl))
    } else if chars_eq_str(&v, 0, n, ">>") {
        Some((8, BinaryOp::Shr))
    } else if chars_eq_str(&v, 0, n, "+") {
        Some((9, BinaryOp::Add))
    } else if chars_eq_str(&v, 0, n, "-") {
        Some((9, BinaryOp::Sub))
    } else if chars_eq_str(&v, 0, n, "*") {
        Some((10, BinaryOp::Mul))
    } else if chars_eq_str(&v, 0, n, "/") {
        Some((10, BinaryOp::Div))
    } else if chars_eq_str(&v, 0, n, "%") {
        Some((10, BinaryOp::Rem))
    } else {
        None
    }
}

fn unop_exec(op: &String) -> (r: Option<UnaryOp>)
    ensures
        r == unop_of(op@),
{
    let v = str_chars(op.as_str());
    let n = v.len();
    assert(v@.subrange(0, n as int) =~= v@);
    if chars_eq_str(&v, 0, n, "-") {
        Some(UnaryOp::Neg)
    } else if chars_eq_str(&v, 0, n, "!") {
        Some(UnaryOp::Not)
    } else if chars_eq_str(&v, 0, n, "~") {
        Some(UnaryOp::BitNot)
    } else {
        None
    }
}

impl Parser {
    pub open spec fn toks(&self) -> Seq<SpecToken> {
        tokens_view(self.tokens@)
    }

    pub fn new(tokens: Vec<Token>) -> (p: Self)
        ensures
            p.tokens@ == tokens@,
            p.pos == 0,
    {
        Parser { tokens, pos: 0 }
    }

    pub fn peek(&self) -> (r: Option<&Token>)
        ensures
            match r {
                Some(t) => self.pos < self.tokens.len() && *t == self.tokens@[self.pos as int],
                None => self.pos >= self.tokens.len(),
            },
    {
        if self.pos < self.tokens.len() {
            Some(&self.tokens[self.pos])
        } else {
            None
        }
    }

    pub fn consume(&mut self) -> (r: Option<Token>)
        ensures
            final(self).tokens@ == old(self).tokens@,
            match r {
                Some(t) => old(self).pos < old(self).tokens.len() && t@ == old(self).toks()[old(
                    self,
                ).pos as int] && final(self).pos == old(self).pos + 1,
                None => old(self).pos >= old(self).tokens.len() && final(self).pos == old(self).pos,
            },
    {
        if self.pos < self.tokens.len() {
            let t = self.tokens[self.pos].duplicate();
            self.pos += 1;
            Some(t)
        } else {
            None
        }
    }

    /// Parses an expression whose binary operators bind at least as tightly
    /// as `min_prec` (see `parse_expr_s`).
    pub fn parse_expr(&mut self, min_prec: u8) -> (r: Result<Expr, String>)
        requires
            old(self).pos <= old(self).tokens.len(),
            min_prec <= 11,
        ensures
            final(self).tokens@ == old(self).tokens@,
            match parse_expr_s(old(self).toks(), old(self).pos as int, min_prec as nat) {
                Ok(res) => r is Ok && r->Ok_0@ == res.0 && final(self).pos == res.1 && expr_valid(
                    res.0,
                ) && old(self).pos < final(self).pos <= final(self).tokens.len(),
                Err(m) => r is Err && r->Err_0@ == m,
            },
        decreases old(self).tokens@.len() - old(self).pos, 1int,
    {
        let ghost t = self.toks();
        let ghost orig = self.tokens@;
        let ghost start = self.pos as int;
        let mut lhs = match self.parse_atom() {
            Ok(e) => e,
            Err(m) => {
                return Err(m);
            },
        };
        assert(parse_expr_s(t, start, min_prec as nat) == parse_loop_s(
            t,
            self.pos as int,
            min_prec as nat,
            lhs@,
        ));
        loop
            invariant
                self.toks() == t,
                self.tokens@ == orig,
                orig == old(self).tokens@,
                start == old(self).pos,
                start < self.pos <= self.tokens.len(),
                min_prec <= 11,
                expr_valid(lhs@),
                parse_expr_s(t, start, min_prec as nat) == parse_loop_s(
                    t,
                    self.pos as int,
                    min_prec as nat,
                    lhs@,
                ),
            decreases self.tokens.len() - self.pos,
        {
            proof {
                if self.pos < self.tokens.len() {
                    assert(t[self.pos as int] == self.tokens@[self.pos as int]@);
                }
            }
            let info = match self.peek() {
                Some(Token::Op(op_str)) => binop_exec(op_str),
                _ => None,
            };
            let (prec, op) = match info {
                Some(pi) => pi,
                None => {
                    return Ok(lhs);
                },
            };
            if prec < min_prec {
                return Ok(lhs);
            }
            let ghost p0 = self.pos as int;
            self.consume();
            let rhs = match self.parse_expr(prec + 1) {
                Ok(e) => e,
                Err(m) => {
                    return Err(m);
                },
            };
            lhs = Expr::Binary(op, Box::new(lhs), Box::new(rhs));
        }
    }

    /// Parses one operand (see `parse_atom_s`).
    pub fn parse_atom(&mut self) -> (r: Result<Expr, String>)
        requires
            old(self).pos <= old(self).tokens.len(),
        ensures
            final(self).tokens@ == old(self).tokens@,
            match parse_atom_s(old(self).toks(), old(self).pos as int) {
                Ok(res) => r is Ok && r->Ok_0@ == res.0 && final(self).pos == res.1 && expr_valid(
                    res.0,
                ) && old(self).pos < final(self).pos <= final(self).tokens.len(),
                Err(m) => r is Err && r->Err_0@ == m,
            },
        decreases old(self).tokens@.len() - old(self).pos, 0int,
    {
        let ghost t = self.toks();
        let ghost p = self.pos as int;
        match self.consume() {
            Some(Token::Literal(val)) => Ok(Expr::Literal(val)),
            Some(Token::Identifier(name)) => {
                match parse_reg_target(name.as_str()) {
                    Some(reg) => Ok(Expr::Register(reg)),
                    None => Ok(Expr::Symbol(name)),
                }
            },
            Some(Token::LParen) => {
                let expr = match self.parse_expr(0) {
                    Ok(e) => e,
                    Err(m) => {
                        return Err(m);
                    },
                };
                match self.consume() {
                    Some(Token::RParen) => Ok(expr),
                    _ => Err(String::from_str("Expected ')'")),
                }
            },
            Some(Token::Op(op)) => {
                let unary_op = match unop_exec(&op) {
                    Some(u) => u,
                    None => {
                        return Err(message("Unexpected operator: ", op.as_str()));
                    },
                };
                let expr = match self.parse_atom() {
                    Ok(e) => e,
                    Err(m) => {
                        return Err(m);
                    },
                };
                Ok(Expr::Unary(unary_op, Box::new(expr)))
            },
            Some(Token::RParen) => Err(String::from_str("Unexpected token: RParen")),
            None => Err(String::from_str("Unexpected end of expression")),
        }
    }
}


/// The binary operator each operator token stands for: `a o b` with two
/// numbers parses as `o` applied to them, for `||`, `&&`, `|`, `^`, `&`,
/// `==`, `!=`, `<`, `<=`, `>`, `>=`, `<<`, `>>`, `+`, `-`, `*`, `/`, `%`.
#[verifier::rlimit(40)]
pub proof fn lemma_operator_tokens(a: u64, b: u64)
    ensures
        parse_expr_s(seq![SpecToken::Literal(a), SpecToken::Op("||"@), SpecToken::Literal(b)], 0, 0)
            == Ok::<(SpecExpr, int), Seq<char>>((SpecExpr::Binary(BinaryOp::LogOr, Box::new(SpecExpr::Literal(a)), Box::new(SpecExpr::Literal(b))), 3)),
        parse_expr_s(seq![SpecToken::Literal(a), SpecToken::Op("&&"@), SpecToken::Literal(b)], 0, 0)
            == Ok::<(SpecExpr, int), Seq<char>>((SpecExpr::Binary(BinaryOp::LogAnd, Box::new(SpecExpr::Literal(a)), Box::new(SpecExpr::Literal(b))), 3)),
        parse_expr_s(seq![SpecToken::Literal(a), SpecToken::Op("|"@), SpecToken::Literal(b)], 0, 0)
            == Ok::<(SpecExpr, int), Seq<char>>((SpecExpr::Binary(BinaryOp::Or, Box::new(SpecExpr::Literal(a)), Box::new(SpecExpr::Literal(b))), 3)),
        parse_expr_s(seq![SpecToken::Literal(a), SpecToken::Op("^"@), SpecToken::Literal(b)], 0, 0)
            == Ok::<(SpecExpr, int), Seq<char>>((SpecExpr::Binary(BinaryOp::Xor, Box::new(SpecExpr::Literal(a)), Box::new(SpecExpr::Literal(b))), 3)),
        parse_expr_s(seq![SpecToken::Literal(a), SpecToken::Op("&"@), SpecToken::Literal(b)], 0, 0)
            == Ok::<(SpecExpr, int), Seq<char>>((SpecExpr::Binary(BinaryOp::And, Box::new(SpecExpr::Literal(a)), Box::new(SpecExpr::Literal(b))), 3)),
        parse_expr_s(seq![SpecToken::Literal(a), SpecToken::Op("=="@), SpecToken::Literal(b)], 0, 0)
            == Ok::<(SpecExpr, int), Seq<char>>((SpecExpr::Binary(BinaryOp::Eq, Box::new(SpecExpr::Literal(a)), Box::new(SpecExpr::Literal(b))), 3)),
        parse_expr_s(seq![SpecToken::Literal(a), SpecToken::Op("!="@), SpecToken::Literal(b)], 0, 0)
            == Ok::<(SpecExpr, int), Seq<char>>((SpecExpr::Binary(BinaryOp::Ne, Box::new(SpecExpr::Literal(a)), Box::new(SpecExpr::Literal(b))), 3)),
        parse_expr_s(seq![SpecToken::Literal(a), SpecToken::Op("<"@), SpecToken::Literal(b)], 0, 0)
            == Ok::<(SpecExpr, int), Seq<char>>((SpecExpr::Binary(BinaryOp::Lt, Box::new(SpecExpr::Literal(a)), Box::new(SpecExpr::Literal(b))), 3)),
        parse_expr_s(seq![SpecToken::Literal(a), SpecToken::Op("<="@), SpecToken::Literal(b)], 0, 0)
            == Ok::<(SpecExpr, int), Seq<char>>((SpecExpr::Binary(BinaryOp::Le, Box::new(SpecExpr::Literal(a)), Box::new(SpecExpr::Literal(b))), 3)),
        parse_expr_s(seq![SpecToken::Literal(a), SpecToken::Op(">"@), SpecToken::Literal(b)], 0, 0)
            == Ok::<(SpecExpr, int), Seq<char>>((SpecExpr::Binary(BinaryOp::Gt, Box::new(SpecExpr::Literal(a)), Box::new(SpecExpr::Literal(b))), 3)),
        parse_expr_s(seq![SpecToken::Literal(a), SpecToken::Op(">="@), SpecToken::Literal(b)], 0, 0)
            == Ok::<(SpecExpr, int), Seq<char>>((SpecExpr::Binary(BinaryOp::Ge, Box::new(SpecExpr::Literal(a)), Box::new(SpecExpr::Literal(b))), 3)),
        parse_expr_s(seq![SpecToken::Literal(a), SpecToken::Op("<<"@), SpecToken::Literal(b)], 0, 0)
            == Ok::<(SpecExpr, int), Seq<char>>((SpecExpr::Binary(BinaryOp::Shl, Box::new(SpecExpr::Literal(a)), Box::new(SpecExpr::Literal(b))), 3)),
        parse_expr_s(seq![SpecToken::Literal(a), SpecToken::Op(">>"@), SpecToken::Literal(b)], 0, 0)
            == Ok::<(SpecExpr, int), Seq<char>>((SpecExpr::Binary(BinaryOp::Shr, Box::new(SpecExpr::Literal(a)), Box::new(SpecExpr::Literal(b))), 3)),
        parse_expr_s(seq![SpecToken::Literal(a), SpecToken::Op("+"@), SpecToken::Literal(b)], 0, 0)
            == Ok::<(SpecExpr, int), Seq<char>>((SpecExpr::Binary(BinaryOp::Add, Box::new(SpecExpr::Literal(a)), Box::new(SpecExpr::Literal(b))), 3)),
        parse_expr_s(seq![SpecToken::Literal(a), SpecToken::Op("-"@), SpecToken::Literal(b)], 0, 0)
            == Ok::<(SpecExpr, int), Seq<char>>((SpecExpr::Binary(BinaryOp::Sub, Box::new(SpecExpr::Literal(a)), Box::new(SpecExpr::Literal(b))), 3)),
        parse_expr_s(seq![SpecToken::Literal(a), SpecToken::Op("*"@), SpecToken::Literal(b)], 0, 0)
            == Ok::<(SpecExpr, int), Seq<char>>((SpecExpr::Binary(BinaryOp::Mul, Box::new(SpecExpr::Literal(a)), Box::new(SpecExpr::Literal(b))), 3)),
        parse_expr_s(seq![SpecToken::Literal(a), SpecToken::Op("/"@), SpecToken::Literal(b)], 0, 0)
            == Ok::<(SpecExpr, int), Seq<char>>((SpecExpr::Binary(BinaryOp::Div, Box::new(SpecExpr::Literal(a)), Box::new(SpecExpr::Literal(b))), 3)),
        parse_expr_s(seq![SpecToken::Literal(a), SpecToken::Op("%"@), SpecToken::Literal(b)], 0, 0)
            == Ok::<(SpecExpr, int), Seq<char>>((SpecExpr::Binary(BinaryOp::Rem, Box::new(SpecExpr::Literal(a)), Box::new(SpecExpr::Literal(b))), 3)),
{
    assert(binop_of("||"@) == Some((1nat, BinaryOp::LogOr))) by {
        reveal_strlit("||");
    }
    lemma_parse_binary(a, "||"@, b);
    assert(binop_of("&&"@) == Some((2nat, BinaryOp::LogAnd))) by {
        reveal_strlit("&&");
        reveal_strlit("||");
        assert("||"@[0] != "&&"@[0]);
    }
    lemma_parse_binary(a, "&&"@, b);
    assert(binop_of("|"@) == Some((3nat, BinaryOp::Or))) by {
        reveal_strlit("|");
        reveal_strlit("||");
        assert("||"@.len() != "|"@.len());
        reveal_strlit("&&");
        assert("&&"@.len() != "|"@.len());
    }
    lemma_parse_binary(a, "|"@, b);
    assert(binop_of("^"@) == Some((4nat, BinaryOp::Xor))) by {
        reveal_strlit("^");
        reveal_strlit("||");
        assert("||"@.len() != "^"@.len());
        reveal_strlit("&&");
        assert("&&"@.len() != "^"@.len());
        reveal_strlit("|");
        assert("|"@[0] != "^"@[0]);
    }
    lemma_parse_binary(a, "^"@, b);
    assert(binop_of("&"@) == Some((5nat, BinaryOp::And))) by {
        reveal_strlit("&");
        reveal_strlit("||");
        assert("||"@.len() != "&"@.len());
        reveal_strlit("&&");
        assert("&&"@.len() != "&"@.len());
        reveal_strlit("|");
        assert("|"@[0] != "&"@[0]);
        reveal_strlit("^");
        assert("^"@[0] != "&"@[0]);
    }
    lemma_parse_binary(a, "&"@, b);
    assert(binop_of("=="@) == Some((6nat, BinaryOp::Eq))) by {
        reveal_strlit("==");
        reveal_strlit("||");
        assert("||"@[0] != "=="@[0]);
        reveal_strlit("&&");
        assert("&&"@[0] != "=="@[0]);
        reveal_strlit("|");
        assert("|"@.len() != "=="@.len());
        reveal_strlit("^");
        assert("^"@.len() != "=="@.len());
        reveal_strlit("&");
        assert("&"@.len() != "=="@.len());
    }
    lemma_parse_binary(a, "=="@, b);
    assert(binop_of("!="@) == Some((6nat, BinaryOp::Ne))) by {
        reveal_strlit("!=");
        reveal_strlit("||");
        assert("||"@[0] != "!="@[0]);
        reveal_strlit("&&");
        assert("&&"@[0] != "!="@[0]);
        reveal_strlit("|");
        assert("|"@.len() != "!="@.len());
        reveal_strlit("^");
        assert("^"@.len() != "!="@.len());
        reveal_strlit("&");
        assert("&"@.len() != "!="@.len());
        reveal_strlit("==");
        assert("=="@[0] != "!="@[0]);
    }
    lemma_parse_binary(a, "!="@, b);
    assert(binop_of("<"@) == Some((7nat, BinaryOp::Lt))) by {
        reveal_strlit("<");
        reveal_strlit("||");
        assert("||"@.len() != "<"@.len());
        reveal_strlit("&&");
        assert("&&"@.len() != "<"@.len());
        reveal_strlit("|");
        assert("|"@[0] != "<"@[0]);
        reveal_strlit("^");
        assert("^"@[0] != "<"@[0]);
        reveal_strlit("&");
        assert("&"@[0] != "<"@[0]);
        reveal_strlit("==");
        assert("=="@.len() != "<"@.len());
        reveal_strlit("!=");
        assert("!="@.len() != "<"@.len());
    }
    lemma_parse_binary(a, "<"@, b);
    assert(binop_of("<="@) == Some((7nat, BinaryOp::Le))) by {
        reveal_strlit("<=");
        reveal_strlit("||");
        assert("||"@[0] != "<="@[0]);
        reveal_strlit("&&");
        assert("&&"@[0] != "<="@[0]);
        reveal_strlit("|");
        assert("|"@.len() != "<="@.len());
        reveal_strlit("^");
        assert("^"@.len() != "<="@.len());
        reveal_strlit("&");
        assert("&"@.len() != "<="@.len());
        reveal_strlit("==");
        assert("=="@[0] != "<="@[0]);
        reveal_strlit("!=");
        assert("!="@[0] != "<="@[0]);
        reveal_strlit("<");
        assert("<"@.len() != "<="@.len());
    }
    lemma_parse_binary(a, "<="@, b);
    assert(binop_of(">"@) == Some((7nat, BinaryOp::Gt))) by {
        reveal_strlit(">");
        reveal_strlit("||");
        assert("||"@.len() != ">"@.len());
        reveal_strlit("&&");
        assert("&&"@.len() != ">"@.len());
        reveal_strlit("|");
        assert("|"@[0] != ">"@[0]);
        reveal_strlit("^");
        assert("^"@[0] != ">"@[0]);
        reveal_strlit("&");
        assert("&"@[0] != ">"@[0]);
        reveal_strlit("==");
        assert("=="@.len() != ">"@.len());
        reveal_strlit("!=");
        assert("!="@.len() != ">"@.len());
        reveal_strlit("<");
        assert("<"@[0] != ">"@[0]);
        reveal_strlit("<=");
        assert("<="@.len() != ">"@.len());
    }
    lemma_parse_binary(a, ">"@, b);
    assert(binop_of(">="@) == Some((7nat, BinaryOp::Ge))) by {
        reveal_strlit(">=");
        reveal_strlit("||");
        assert("||"@[0] != ">="@[0]);
        reveal_strlit("&&");
        assert("&&"@[0] != ">="@[0]);
        reveal_strlit("|");
        assert("|"@.len() != ">="@.len());
        reveal_strlit("^");
        assert("^"@.len() != ">="@.len());
        reveal_strlit("&");
        assert("&"@.len() != ">="@.len());
        reveal_strlit("==");
        assert("=="@[0] != ">="@[0]);
        reveal_strlit("!=");
        assert("!="@[0] != ">="@[0]);
        reveal_strlit("<");
        assert("<"@.len() != ">="@.len());
        reveal_strlit("<=");
        assert("<="@[0] != ">="@[0]);
        reveal_strlit(">");
        assert(">"@.len() != ">="@.len());
    }
    lemma_parse_binary(a, ">="@, b);
    assert(binop_of("<<"@) == Some((8nat, BinaryOp::Shl))) by {
        reveal_strlit("<<");
        reveal_strlit("||");
        assert("||"@[0] != "<<"@[0]);
        reveal_strlit("&&");
        assert("&&"@[0] != "<<"@[0]);
        reveal_strlit("|");
        assert("|"@.len() != "<<"@.len());
        reveal_strlit("^");
        assert("^"@.len() != "<<"@.len());
        reveal_strlit("&");
        assert("&"@.len() != "<<"@.len());
        reveal_strlit("==");
        assert("=="@[0] != "<<"@[0]);
        reveal_strlit("!=");
        assert("!="@[0] != "<<"@[0]);
        reveal_strlit("<");
        assert("<"@.len() != "<<"@.len());
        reveal_strlit("<=");
        assert("<="@[1] != "<<"@[1]);
        reveal_strlit(">");
        assert(">"@.len() != "<<"@.len());
        reveal_strlit(">=");
        assert(">="@[0] != "<<"@[0]);
    }
    lemma_parse_binary(a, "<<"@, b);
    assert(binop_of(">>"@) == Some((8nat, BinaryOp::Shr))) by {
        reveal_strlit(">>");
        reveal_strlit("||");
        assert("||"@[0] != ">>"@[0]);
        reveal_strlit("&&");
        assert("&&"@[0] != ">>"@[0]);
        reveal_strlit("|");
        assert("|"@.len() != ">>"@.len());
        reveal_strlit("^");
        assert("^"@.len() != ">>"@.len());
        reveal_strlit("&");
        assert("&"@.len() != ">>"@.len());
        reveal_strlit("==");
        assert("=="@[0] != ">>"@[0]);
        reveal_strlit("!=");
        assert("!="@[0] != ">>"@[0]);
        reveal_strlit("<");
        assert("<"@.len() != ">>"@.len());
        reveal_strlit("<=");
        assert("<="@[0] != ">>"@[0]);
        reveal_strlit(">");
        assert(">"@.len() != ">>"@.len());
        reveal_strlit(">=");
        assert(">="@[1] != ">>"@[1]);
        reveal_strlit("<<");
        assert("<<"@[0] != ">>"@[0]);
    }
    lemma_parse_binary(a, ">>"@, b);
    assert(binop_of("+"@) == Some((9nat, BinaryOp::Add))) by {
        reveal_strlit("+");
        reveal_strlit("||");
        assert("||"@.len() != "+"@.len());
        reveal_strlit("&&");
        assert("&&"@.len() != "+"@.len());
        reveal_strlit("|");
        assert("|"@[0] != "+"@[0]);
        reveal_strlit("^");
        assert("^"@[0] != "+"@[0]);
        reveal_strlit("&");
        assert("&"@[0] != "+"@[0]);
        reveal_strlit("==");
        assert("=="@.len() != "+"@.len());
        reveal_strlit("!=");
        assert("!="@.len() != "+"@.len());
        reveal_strlit("<");
        assert("<"@[0] != "+"@[0]);
        reveal_strlit("<=");
        assert("<="@.len() != "+"@.len());
        reveal_strlit(">");
        assert(">"@[0] != "+"@[0]);
        reveal_strlit(">=");
        assert(">="@.len() != "+"@.len());
        reveal_strlit("<<");
        assert("<<"@.len() != "+"@.len());
        reveal_strlit(">>");
        assert(">>"@.len() != "+"@.len());
    }
    lemma_parse_binary(a, "+"@, b);
    assert(binop_of("-"@) == Some((9nat, BinaryOp::Sub))) by {
        reveal_strlit("-");
        reveal_strlit("||");
        assert("||"@.len() != "-"@.len());
        reveal_strlit("&&");
        assert("&&"@.len() != "-"@.len());
        reveal_strlit("|");
        assert("|"@[0] != "-"@[0]);
        reveal_strlit("^");
        assert("^"@[0] != "-"@[0]);
        reveal_strlit("&");
        assert("&"@[0] != "-"@[0]);
        reveal_strlit("==");
        assert("=="@.len() != "-"@.len());
        reveal_strlit("!=");
        assert("!="@.len() != "-"@.len());
        reveal_strlit("<");
        assert("<"@[0] != "-"@[0]);
        reveal_strlit("<=");
        assert("<="@.len() != "-"@.len());
        reveal_strlit(">");
        assert(">"@[0] != "-"@[0]);
        reveal_strlit(">=");
        assert(">="@.len() != "-"@.len());
        reveal_strlit("<<");
        assert("<<"@.len() != "-"@.len());
        reveal_strlit(">>");
        assert(">>"@.len() != "-"@.len());
        reveal_strlit("+");
        assert("+"@[0] != "-"@[0]);
    }
    lemma_parse_binary(a, "-"@, b);
    assert(binop_of("*"@) == Some((10nat, BinaryOp::Mul))) by {
        reveal_strlit("*");
        reveal_strlit("||");
        assert("||"@.len() != "*"@.len());
        reveal_strlit("&&");
        assert("&&"@.len() != "*"@.len());
        reveal_strlit("|");
        assert("|"@[0] != "*"@[0]);
        reveal_strlit("^");
        assert("^"@[0] != "*"@[0]);
        reveal_strlit("&");
        assert("&"@[0] != "*"@[0]);
        reveal_strlit("==");
        assert("=="@.len() != "*"@.len());
        reveal_strlit("!=");
        assert("!="@.len() != "*"@.len());
        reveal_strlit("<");
        assert("<"@[0] != "*"@[0]);
        reveal_strlit("<=");
        assert("<="@.len() != "*"@.len());
        reveal_strlit(">");
        assert(">"@[0] != "*"@[0]);
        reveal_strlit(">=");
        assert(">="@.len() != "*"@.len());
        reveal_strlit("<<");
        assert("<<"@.len() != "*"@.len());
        reveal_strlit(">>");
        assert(">>"@.len() != "*"@.len());
        reveal_strlit("+");
        assert("+"@[0] != "*"@[0]);
        reveal_strlit("-");
        assert("-"@[0] != "*"@[0]);
    }
    lemma_parse_binary(a, "*"@, b);
    assert(binop_of("/"@) == Some((10nat, BinaryOp::Div))) by {
        reveal_strlit("/");
        reveal_strlit("||");
        assert("||"@.len() != "/"@.len());
        reveal_strlit("&&");
        assert("&&"@.len() != "/"@.len());
        reveal_strlit("|");
        assert("|"@[0] != "/"@[0]);
        reveal_strlit("^");
        assert("^"@[0] != "/"@[0]);
        reveal_strlit("&");
        assert("&"@[0] != "/"@[0]);
        reveal_strlit("==");
        assert("=="@.len() != "/"@.len());
        reveal_strlit("!=");
        assert("!="@.len() != "/"@.len());
        reveal_strlit("<");
        assert("<"@[0] != "/"@[0]);
        reveal_strlit("<=");
        assert("<="@.len() != "/"@.len());
        reveal_strlit(">");
        assert(">"@[0] != "/"@[0]);
        reveal_strlit(">=");
        assert(">="@.len() != "/"@.len());
        reveal_strlit("<<");
        assert("<<"@.len() != "/"@.len());
        reveal_strlit(">>");
        assert(">>"@.len() != "/"@.len());
        reveal_strlit("+");
        assert("+"@[0] != "/"@[0]);
        reveal_strlit("-");
        assert("-"@[0] != "/"@[0]);
        reveal_strlit("*");
        assert("*"@[0] != "/"@[0]);
    }
    lemma_parse_binary(a, "/"@, b);
    assert(binop_of("%"@) == Some((10nat, BinaryOp::Rem))) by {
        reveal_strlit("%");
        reveal_strlit("||");
        assert("||"@.len() != "%"@.len());
        reveal_strlit("&&");
        assert("&&"@.len() != "%"@.len());
        reveal_strlit("|");
        assert("|"@[0] != "%"@[0]);
        reveal_strlit("^");
        assert("^"@[0] != "%"@[0]);
        reveal_strlit("&");
        assert("&"@[0] != "%"@[0]);
        reveal_strlit("==");
        assert("=="@.len() != "%"@.len());
        reveal_strlit("!=");
        assert("!="@.len() != "%"@.len());
        reveal_strlit("<");
        assert("<"@[0] != "%"@[0]);
        reveal_strlit("<=");
        assert("<="@.len() != "%"@.len());
        reveal_strlit(">");
        assert(">"@[0] != "%"@[0]);
        reveal_strlit(">=");
        assert(">="@.len() != "%"@.len());
        reveal_strlit("<<");
        assert("<<"@.len() != "%"@.len());
        reveal_strlit(">>");
        assert(">>"@.len() != "%"@.len());
        reveal_strlit("+");
        assert("+"@[0] != "%"@[0]);
        reveal_strlit("-");
        assert("-"@[0] != "%"@[0]);
        reveal_strlit("*");
        assert("*"@[0] != "%"@[0]);
        reveal_strlit("/");
        assert("/"@[0] != "%"@[0]);
    }
    lemma_parse_binary(a, "%"@, b);

}

proof fn lemma_parse_binary(a: u64, o: Seq<char>, b: u64)
    requires
        binop_of(o) is Some,
    ensures
        parse_expr_s(seq![SpecToken::Literal(a), SpecToken::Op(o), SpecToken::Literal(b)], 0, 0)
            == Ok::<(SpecExpr, int), Seq<char>>((SpecExpr::Binary(binop_of(o).unwrap().1, Box::new(SpecExpr::Literal(a)), Box::new(SpecExpr::Literal(b))), 3)),
{
    let t = seq![SpecToken::Literal(a), SpecToken::Op(o), SpecToken::Literal(b)];
    let (p, op) = binop_of(o).unwrap();
    assert(parse_atom_s(t, 2) == Ok::<(SpecExpr, int), Seq<char>>((SpecExpr::Literal(b), 3)));
    assert(parse_loop_s(t, 3, p + 1, SpecExpr::Literal(b)) == Ok::<(SpecExpr, int), Seq<char>>((SpecExpr::Literal(b), 3)));
    assert(parse_expr_s(t, 2, p + 1) == Ok::<(SpecExpr, int), Seq<char>>((SpecExpr::Literal(b), 3)));
    let e = SpecExpr::Binary(op, Box::new(SpecExpr::Literal(a)), Box::new(SpecExpr::Literal(b)));
    assert(parse_loop_s(t, 3, 0, e) == Ok::<(SpecExpr, int), Seq<char>>((e, 3)));
    assert(parse_loop_s(t, 1, 0, SpecExpr::Literal(a)) == Ok::<(SpecExpr, int), Seq<char>>((e, 3)));
    assert(parse_atom_s(t, 0) == Ok::<(SpecExpr, int), Seq<char>>((SpecExpr::Literal(a), 1)));
}

/// The prefix operator each token stands for: `-a` negates, `!a` is the
/// logical not and `~a` the bitwise complement of the operand.
pub proof fn lemma_prefix_tokens(a: u64)
    ensures
        parse_expr_s(seq![SpecToken::Op("-"@), SpecToken::Literal(a)], 0, 0)
            == Ok::<(SpecExpr, int), Seq<char>>((SpecExpr::Unary(UnaryOp::Neg, Box::new(SpecExpr::Literal(a))), 2)),
        parse_expr_s(seq![SpecToken::Op("!"@), SpecToken::Literal(a)], 0, 0)
            == Ok::<(SpecExpr, int), Seq<char>>((SpecExpr::Unary(UnaryOp::Not, Box::new(SpecExpr::Literal(a))), 2)),
        parse_expr_s(seq![SpecToken::Op("~"@), SpecToken::Literal(a)], 0, 0)
            == Ok::<(SpecExpr, int), Seq<char>>((SpecExpr::Unary(UnaryOp::BitNot, Box::new(SpecExpr::Literal(a))), 2)),
{
    reveal_strlit("-");
    reveal_strlit("!");
    reveal_strlit("~");
    assert("-"@[0] != "!"@[0]);
    assert("-"@[0] != "~"@[0]);
    assert("!"@[0] != "~"@[0]);
    lemma_parse_prefix(a, "-"@);
    lemma_parse_prefix(a, "!"@);
    lemma_parse_prefix(a, "~"@);
}

proof fn lemma_parse_prefix(a: u64, o: Seq<char>)
    requires
        unop_of(o) is Some,
    ensures
        parse_expr_s(seq![SpecToken::Op(o), SpecToken::Literal(a)], 0, 0)
            == Ok::<(SpecExpr, int), Seq<char>>((SpecExpr::Unary(unop_of(o).unwrap(), Box::new(SpecExpr::Literal(a))), 2)),
{
    let t = seq![SpecToken::Op(o), SpecToken::Literal(a)];
    let e = SpecExpr::Unary(unop_of(o).unwrap(), Box::new(SpecExpr::Literal(a)));
    assert(parse_atom_s(t, 1) == Ok::<(SpecExpr, int), Seq<char>>((SpecExpr::Literal(a), 2)));
    assert(parse_atom_s(t, 0) == Ok::<(SpecExpr, int), Seq<char>>((e, 2)));
    assert(parse_loop_s(t, 2, 0, e) == Ok::<(SpecExpr, int), Seq<char>>((e, 2)));
}

} // verus!
