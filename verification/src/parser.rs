//! The parser: a single-token-lookahead recursive-descent consumer of the
//! token sequence that builds `Rule` AST nodes.
//!
//! Grammar:
//! ```text
//! RuleSet    := Rule*
//! Rule       := 'rule' Ident StringLit? '{' 'when' Condition 'then' Action* '}'
//! Condition  := Comparison ( ('&&' | '||') Comparison )*
//! Comparison := Expr CmpOp Expr                 // CmpOp is ==, < or >
//! Expr       := Atom ( '+' Atom )*
//! Atom       := IntLiteral | Ident ('.' Ident)? | '(' Expr ')'
//! Action     := Ident '.' Ident '=' Expr ';'
//! ```
//! `&&` and `||` share one precedence level and associate left to right, and
//! an action's field path has exactly two dotted segments.  There is no
//! backtracking and no recovery: the first failure aborts the whole parse.
//!
//! The `sp_*` functions are the mathematical parser over the token views;
//! each executable method is proved to return exactly what its spec-level
//! counterpart says.

use vstd::prelude::*;

use crate::ast::{Action, ActionV, CmpOp, CondV, Condition, Expr, ExprV, Op, Rule, RuleV};
use crate::lexer::{spec_tokenize, tokenize, LexError, Token, TokenV};
use crate::value::Value;

verus! {

/// An error from parsing: the construct that was expected and not found, or
/// the lexical error that stopped tokenization.
#[derive(Clone, Copy, Debug, PartialEq, Eq, Structural)]
pub enum ParseError {
    /// Tokenization failed before parsing began.
    Lex(LexError),
    ExpectedRule,
    ExpectedRuleName,
    ExpectedLBrace,
    ExpectedWhen,
    ExpectedThen,
    ExpectedRBrace,
    ExpectedIdent,
    ExpectedDot,
    ExpectedFieldName,
    ExpectedAssign,
    ExpectedSemicolon,
    ExpectedCmpOp,
    ExpectedFieldAfterDot,
    ExpectedRParen,
    UnexpectedAtom,
}

/// A decreasing measure for positions walking right through `n` tokens.
pub open spec fn rem(n: int, pos: int) -> int {
    if pos <= n {
        n - pos
    } else {
        0
    }
}

/// The position a sub-parse hands back, forced past `lo`; the parse
/// functions only ever return positions past the tokens they consumed, so
/// the clamp never fires, but it makes progress evident.
pub open spec fn next_pos(lo: int, p: int) -> int {
    if p > lo {
        p
    } else {
        lo + 1
    }
}

/// Parse an atom from `pos`: an integer literal, a field reference of one or
/// two dotted segments, or a parenthesized expression.
pub open spec fn sp_atom(ts: Seq<TokenV>, pos: int) -> Result<(ExprV, int), ParseError>
    decreases rem(ts.len() as int, pos), 0int,
{
    if pos < 0 || pos >= ts.len() {
        Err(ParseError::UnexpectedAtom)
    } else {
        match ts[pos] {
            TokenV::Int(n) => Ok((ExprV::Literal(Value::Int(n)), pos + 1)),
            TokenV::Ident(name) => if pos + 1 < ts.len() && ts[pos + 1] is Dot {
                if pos + 2 < ts.len() && ts[pos + 2] is Ident {
                    Ok((ExprV::FieldRef(name + seq!['.'] + ts[pos + 2]->Ident_0), pos + 3))
                } else {
                    Err(ParseError::ExpectedFieldAfterDot)
                }
            } else {
                Ok((ExprV::FieldRef(name), pos + 1))
            },
            TokenV::LParen => match sp_expr(ts, pos + 1) {
                Ok((e, p2)) => if 0 <= p2 < ts.len() && ts[p2] is RParen {
                    Ok((e, p2 + 1))
                } else {
                    Err(ParseError::ExpectedRParen)
                },
                Err(err) => Err(err),
            },
            _ => Err(ParseError::UnexpectedAtom),
        }
    }
}

/// Fold further `+ Atom` steps onto an already-parsed left operand.
pub open spec fn sp_expr_tail(ts: Seq<TokenV>, left: ExprV, pos: int) -> Result<
    (ExprV, int),
    ParseError,
>
    decreases rem(ts.len() as int, pos), 1int,
{
    if 0 <= pos < ts.len() && ts[pos] is Plus {
        match sp_atom(ts, pos + 1) {
            Ok((right, p2)) => sp_expr_tail(
                ts,
                ExprV::BinOp { left: Box::new(left), op: Op::Add, right: Box::new(right) },
                next_pos(pos + 1, p2),
            ),
            Err(err) => Err(err),
        }
    } else {
        Ok((left, pos))
    }
}

/// Parse an expression from `pos`: atoms joined by `+`, left-associative.
pub open spec fn sp_expr(ts: Seq<TokenV>, pos: int) -> Result<(ExprV, int), ParseError>
    decreases rem(ts.len() as int, pos), 2int,
{
    match sp_atom(ts, pos) {
        Ok((left, p1)) => sp_expr_tail(ts, left, next_pos(pos, p1)),
        Err(err) => Err(err),
    }
}

/// Parse a comparison from `pos`: an expression, one of `==`, `<`, `>`, and
/// another expression.
pub open spec fn sp_comparison(ts: Seq<TokenV>, pos: int) -> Result<(CondV, int), ParseError>
    decreases rem(ts.len() as int, pos), 3int,
{
    match sp_expr(ts, pos) {
        Ok((left, p1)) => {
            let op = if 0 <= p1 < ts.len() && ts[p1] is Eq {
                Some(CmpOp::Eq)
            } else if 0 <= p1 < ts.len() && ts[p1] is Lt {
                Some(CmpOp::Lt)
            } else if 0 <= p1 < ts.len() && ts[p1] is Gt {
                Some(CmpOp::Gt)
            } else {
                None
            };
            match op {
                Some(cmp) => match sp_expr(ts, next_pos(pos, p1 + 1)) {
                    Ok((right, p2)) => Ok((CondV::Compare { left, op: cmp, right }, p2)),
                    Err(err) => Err(err),
                },
                None => Err(ParseError::ExpectedCmpOp),
            }
        },
        Err(err) => Err(err),
    }
}

/// Fold further `&& Comparison` / `|| Comparison` steps onto an
/// already-parsed left condition; one shared precedence level, left to
/// right.
pub open spec fn sp_condition_tail(ts: Seq<TokenV>, left: CondV, pos: int) -> Result<
    (CondV, int),
    ParseError,
>
    decreases rem(ts.len() as int, pos), 4int,
{
    if 0 <= pos < ts.len() && ts[pos] is And {
        match sp_comparison(ts, pos + 1) {
            Ok((right, p2)) => sp_condition_tail(
                ts,
                CondV::And(Box::new(left), Box::new(right)),
                next_pos(pos, p2),
            ),
            Err(err) => Err(err),
        }
    } else if 0 <= pos < ts.len() && ts[pos] is Or {
        match sp_comparison(ts, pos + 1) {
            Ok((right, p2)) => sp_condition_tail(
                ts,
                CondV::Or(Box::new(left), Box::new(right)),
                next_pos(pos, p2),
            ),
            Err(err) => Err(err),
        }
    } else {
        Ok((left, pos))
    }
}

/// Parse a condition from `pos`: comparisons joined by `&&` or `||`.
pub open spec fn sp_condition(ts: Seq<TokenV>, pos: int) -> Result<(CondV, int), ParseError>
    decreases rem(ts.len() as int, pos), 5int,
{
    match sp_comparison(ts, pos) {
        Ok((left, p1)) => sp_condition_tail(ts, left, next_pos(pos, p1)),
        Err(err) => Err(err),
    }
}

/// Parse actions from `pos` until a `}` or the end of the tokens: each is
/// `Ident '.' Ident '=' Expr ';'`, a field path of exactly two segments.
pub open spec fn sp_actions(ts: Seq<TokenV>, pos: int) -> Result<(Seq<ActionV>, int), ParseError>
    decreases rem(ts.len() as int, pos), 6int,
{
    if pos < 0 || pos >= ts.len() || ts[pos] is RBrace {
        Ok((Seq::empty(), pos))
    } else {
        match ts[pos] {
            TokenV::Ident(n1) => if pos + 1 < ts.len() && ts[pos + 1] is Dot {
                if pos + 2 < ts.len() && ts[pos + 2] is Ident {
                    let field = n1 + seq!['.'] + ts[pos + 2]->Ident_0;
                    if pos + 3 < ts.len() && ts[pos + 3] is Assign {
                        match sp_expr(ts, pos + 4) {
                            Ok((e, p5)) => if 0 <= p5 < ts.len() && ts[p5] is Semicolon {
                                match sp_actions(ts, next_pos(pos, p5 + 1)) {
                                    Ok((rest, pend)) => Ok(
                                        (seq![ActionV::Assign { field, expr: e }] + rest, pend),
                                    ),
                                    Err(err) => Err(err),
                                }
                            } else {
                                Err(ParseError::ExpectedSemicolon)
                            },
                            Err(err) => Err(err),
                        }
                    } else {
                        Err(ParseError::ExpectedAssign)
                    }
                } else {
                    Err(ParseError::ExpectedFieldName)
                }
            } else {
                Err(ParseError::ExpectedDot)
            },
            _ => Err(ParseError::ExpectedIdent),
        }
    }
}

/// Parse one whole rule from `pos`.
pub open spec fn sp_rule(ts: Seq<TokenV>, pos: int) -> Result<(RuleV, int), ParseError>
    decreases rem(ts.len() as int, pos), 7int,
{
    if !(0 <= pos < ts.len() && ts[pos] is Rule) {
        Err(ParseError::ExpectedRule)
    } else if !(pos + 1 < ts.len() && ts[pos + 1] is Ident) {
        Err(ParseError::ExpectedRuleName)
    } else {
        let name = ts[pos + 1]->Ident_0;
        let p2 = pos + 2;
        let p3 = if p2 < ts.len() && ts[p2] is StringLit {
            p2 + 1
        } else {
            p2
        };
        if !(p3 < ts.len() && ts[p3] is LBrace) {
            Err(ParseError::ExpectedLBrace)
        } else if !(p3 + 1 < ts.len() && ts[p3 + 1] is When) {
            Err(ParseError::ExpectedWhen)
        } else {
            match sp_condition(ts, p3 + 2) {
                Err(err) => Err(err),
                Ok((cond, p5)) => if !(0 <= p5 < ts.len() && ts[p5] is Then) {
                    Err(ParseError::ExpectedThen)
                } else {
                    match sp_actions(ts, next_pos(pos, p5 + 1)) {
                        Err(err) => Err(err),
                        Ok((acts, p6)) => if !(0 <= p6 < ts.len() && ts[p6] is RBrace) {
                            Err(ParseError::ExpectedRBrace)
                        } else {
                            Ok((RuleV { name, condition: cond, actions: acts }, p6 + 1))
                        },
                    }
                },
            }
        }
    }
}

/// Parse rules from `pos` until the tokens run out.
pub open spec fn sp_rules(ts: Seq<TokenV>, pos: int) -> Result<Seq<RuleV>, ParseError>
    decreases rem(ts.len() as int, pos), 8int,
{
    if pos < 0 || pos >= ts.len() {
        Ok(Seq::empty())
    } else {
        match sp_rule(ts, pos) {
            Ok((r, p2)) => match sp_rules(ts, next_pos(pos, p2)) {
                Ok(rest) => Ok(seq![r] + rest),
                Err(err) => Err(err),
            },
            Err(err) => Err(err),
        }
    }
}

/// What parsing a whole source text yields: its token sequence fed to the
/// rule-set grammar, or the lexical error wrapped in `ParseError::Lex`.
pub open spec fn sp_parse(s: Seq<char>) -> Result<Seq<RuleV>, ParseError> {
    match spec_tokenize(s) {
        Ok(ts) => sp_rules(ts, 0),
        Err(e) => Err(ParseError::Lex(e)),
    }
}

/// Prepend one parsed action to the outcome of parsing the rest.
spec fn act_cons(a: ActionV, r: Result<(Seq<ActionV>, int), ParseError>) -> Result<
    (Seq<ActionV>, int),
    ParseError,
> {
    match r {
        Ok((rest, p)) => Ok((seq![a] + rest, p)),
        Err(e) => Err(e),
    }
}

/// Prepend already-parsed actions to the outcome of parsing the rest.
spec fn act_join(acc: Seq<ActionV>, r: Result<(Seq<ActionV>, int), ParseError>) -> Result<
    (Seq<ActionV>, int),
    ParseError,
> {
    match r {
        Ok((rest, p)) => Ok((acc + rest, p)),
        Err(e) => Err(e),
    }
}

proof fn lemma_act_join_push(acc: Seq<ActionV>, a: ActionV, r: Result<(Seq<ActionV>, int), ParseError>)
    ensures
        act_join(acc.push(a), r) == act_join(acc, act_cons(a, r)),
{
    match r {
        Ok((rest, p)) => {
            assert(acc.push(a) + rest =~= acc + (seq![a] + rest));
        },
        Err(e) => {},
    }
}

/// Prepend one parsed rule to the outcome of parsing the rest.
spec fn rules_cons(rv: RuleV, r: Result<Seq<RuleV>, ParseError>) -> Result<Seq<RuleV>, ParseError> {
    match r {
        Ok(rest) => Ok(seq![rv] + rest),
        Err(e) => Err(e),
    }
}

/// Prepend already-parsed rules to the outcome of parsing the rest.
spec fn rules_join(acc: Seq<RuleV>, r: Result<Seq<RuleV>, ParseError>) -> Result<
    Seq<RuleV>,
    ParseError,
> {
    match r {
        Ok(rest) => Ok(acc + rest),
        Err(e) => Err(e),
    }
}

proof fn lemma_rules_join_push(acc: Seq<RuleV>, rv: RuleV, r: Result<Seq<RuleV>, ParseError>)
    ensures
        rules_join(acc.push(rv), r) == rules_join(acc, rules_cons(rv, r)),
{
    match r {
        Ok(rest) => {
            assert(acc.push(rv) + rest =~= acc + (seq![rv] + rest));
        },
        Err(e) => {},
    }
}

/// The recursive-descent parser state: the token sequence and the position
/// of the next unconsumed token.
struct Parser {
    tokens: Vec<Token>,
    pos: usize,
}

impl Parser {
    /// The next unconsumed token, without consuming it.
    fn peek(&self) -> (t: Option<&Token>)
        ensures
            match t {
                Some(tok) => self.pos < self.tokens@.len() && *tok == self.tokens@[self.pos as int],
                None => self.pos >= self.tokens@.len(),
            },
    {
        if self.pos < self.tokens.len() {
            Some(&self.tokens[self.pos])
        } else {
            None
        }
    }

    /// Consume the next token, if any is left.
    fn advance(&mut self)
        ensures
            final(self).tokens == old(self).tokens,
            old(self).pos < old(self).tokens@.len() ==> final(self).pos == old(self).pos + 1,
            old(self).pos >= old(self).tokens@.len() ==> final(self).pos == old(self).pos,
    {
        if self.pos < self.tokens.len() {
            self.pos = self.pos + 1;
        }
    }

    /// Parse an atom: an integer literal, a field reference of one or two
    /// dotted segments, or a parenthesized expression.
    fn parse_atom(&mut self) -> (r: Result<Expr, ParseError>)
        requires
            old(self).pos <= old(self).tokens@.len(),
        ensures
            final(self).tokens == old(self).tokens,
            old(self).pos <= final(self).pos <= final(self).tokens@.len(),
            match r {
                Ok(e) => old(self).pos < final(self).pos && sp_atom(
                    old(self).tokens.deep_view(),
                    old(self).pos as int,
                ) == Ok::<(ExprV, int), ParseError>((e@, final(self).pos as int)),
                Err(err) => sp_atom(old(self).tokens.deep_view(), old(self).pos as int) == Err::<
                    (ExprV, int),
                    ParseError,
                >(err),
            },
        decreases rem(self.tokens@.len() as int, self.pos as int), 0int,
    {
        match self.peek() {
            Some(Token::Int(n)) => {
                let n = *n;
                self.advance();
                Ok(Expr::Literal(Value::Int(n)))
            },
            Some(Token::Ident(s)) => {
                let name = s.clone();
                self.advance();
                if matches!(self.peek(), Some(Token::Dot)) {
                    self.advance();
                    match self.peek() {
                        Some(Token::Ident(f)) => {
                            let f = f.clone();
                            self.advance();
                            let mut full = name;
                            full.append(".");
                            full.append(f.as_str());
                            proof {
                                reveal_strlit(".");
                                assert("."@ =~= seq!['.']);
                            }
                            Ok(Expr::FieldRef(full))
                        },
                        _ => Err(ParseError::ExpectedFieldAfterDot),
                    }
                } else {
                    Ok(Expr::FieldRef(name))
                }
            },
            Some(Token::LParen) => {
                self.advance();
                let e = match self.parse_expr() {
                    Ok(e) => e,
                    Err(err) => {
                        return Err(err);
                    },
                };
                if matches!(self.peek(), Some(Token::RParen)) {
                    self.advance();
                    Ok(e)
                } else {
                    Err(ParseError::ExpectedRParen)
                }
            },
            _ => Err(ParseError::UnexpectedAtom),
        }
    }

    /// Parse an expression: atoms joined by `+`, left-associative.
    fn parse_expr(&mut self) -> (r: Result<Expr, ParseError>)
        requires
            old(self).pos <= old(self).tokens@.len(),
        ensures
            final(self).tokens == old(self).tokens,
            old(self).pos <= final(self).pos <= final(self).tokens@.len(),
            match r {
                Ok(e) => old(self).pos < final(self).pos && sp_expr(
                    old(self).tokens.deep_view(),
                    old(self).pos as int,
                ) == Ok::<(ExprV, int), ParseError>((e@, final(self).pos as int)),
                Err(err) => sp_expr(old(self).tokens.deep_view(), old(self).pos as int) == Err::<
                    (ExprV, int),
                    ParseError,
                >(err),
            },
        decreases rem(self.tokens@.len() as int, self.pos as int), 2int,
    {
        let ghost dv = self.tokens.deep_view();
        let ghost p0 = self.pos as int;
        let mut left = match self.parse_atom() {
            Ok(e) => e,
            Err(err) => {
                return Err(err);
            },
        };
        while matches!(self.peek(), Some(Token::Plus))
            invariant
                self.tokens == old(self).tokens,
                dv == self.tokens.deep_view(),
                p0 == old(self).pos as int,
                p0 < self.pos as int,
                self.pos <= self.tokens@.len(),
                sp_expr_tail(dv, left@, self.pos as int) == sp_expr(dv, p0),
            decreases self.tokens@.len() - self.pos,
        {
            self.advance();
            let right = match self.parse_atom() {
                Ok(e) => e,
                Err(err) => {
                    return Err(err);
                },
            };
            left = Expr::BinOp { left: Box::new(left), op: Op::Add, right: Box::new(right) };
        }
        Ok(left)
    }

    /// Parse a comparison: an expression, one of `==`, `<`, `>`, and another
    /// expression.
    fn parse_comparison(&mut self) -> (r: Result<Condition, ParseError>)
        requires
            old(self).pos <= old(self).tokens@.len(),
        ensures
            final(self).tokens == old(self).tokens,
            old(self).pos <= final(self).pos <= final(self).tokens@.len(),
            match r {
                Ok(c) => old(self).pos < final(self).pos && sp_comparison(
                    old(self).tokens.deep_view(),
                    old(self).pos as int,
                ) == Ok::<(CondV, int), ParseError>((c@, final(self).pos as int)),
                Err(err) => sp_comparison(old(self).tokens.deep_view(), old(self).pos as int)
                    == Err::<(CondV, int), ParseError>(err),
            },
        decreases rem(self.tokens@.len() as int, self.pos as int), 3int,
    {
        let left = match self.parse_expr() {
            Ok(e) => e,
            Err(err) => {
                return Err(err);
            },
        };
        let op_opt: Option<CmpOp> = match self.peek() {
            Some(Token::Eq) => Some(CmpOp::Eq),
            Some(Token::Lt) => Some(CmpOp::Lt),
            Some(Token::Gt) => Some(CmpOp::Gt),
            _ => None,
        };
        let cmp = match op_opt {
            Some(c) => c,
            None => {
                return Err(ParseError::ExpectedCmpOp);
            },
        };
        self.advance();
        let right = match self.parse_expr() {
            Ok(e) => e,
            Err(err) => {
                return Err(err);
            },
        };
        Ok(Condition::Compare { left, op: cmp, right })
    }

    /// Parse a condition: comparisons joined by `&&` or `||`, one shared
    /// precedence level, left to right.
    fn parse_condition(&mut self) -> (r: Result<Condition, ParseError>)
        requires
            old(self).pos <= old(self).tokens@.len(),
        ensures
            final(self).tokens == old(self).tokens,
            old(self).pos <= final(self).pos <= final(self).tokens@.len(),
            match r {
                Ok(c) => old(self).pos < final(self).pos && sp_condition(
                    old(self).tokens.deep_view(),
                    old(self).pos as int,
                ) == Ok::<(CondV, int), ParseError>((c@, final(self).pos as int)),
                Err(err) => sp_condition(old(self).tokens.deep_view(), old(self).pos as int)
                    == Err::<(CondV, int), ParseError>(err),
            },
        decreases rem(self.tokens@.len() as int, self.pos as int), 5int,
    {
        let ghost dv = self.tokens.deep_view();
        let ghost p0 = self.pos as int;
        let mut left = match self.parse_comparison() {
            Ok(c) => c,
            Err(err) => {
                return Err(err);
            },
        };
        while matches!(self.peek(), Some(Token::And) | Some(Token::Or))
            invariant
                self.tokens == old(self).tokens,
                dv == self.tokens.deep_view(),
                p0 == old(self).pos as int,
                p0 < self.pos as int,
                self.pos <= self.tokens@.len(),
                sp_condition_tail(dv, left@, self.pos as int) == sp_condition(dv, p0),
            decreases self.tokens@.len() - self.pos,
        {
            let is_and = matches!(self.peek(), Some(Token::And));
            self.advance();
            let right = match self.parse_comparison() {
                Ok(c) => c,
                Err(err) => {
                    return Err(err);
                },
            };
            if is_and {
                left = Condition::And(Box::new(left), Box::new(right));
            } else {
                left = Condition::Or(Box::new(left), Box::new(right));
            }
        }
        Ok(left)
    }

    /// Parse actions up to the closing `}` (or the end of the tokens).
    fn parse_actions(&mut self) -> (r: Result<Vec<Action>, ParseError>)
        requires
            old(self).pos <= old(self).tokens@.len(),
        ensures
            final(self).tokens == old(self).tokens,
            old(self).pos <= final(self).pos <= final(self).tokens@.len(),
            match r {
                Ok(acts) => sp_actions(old(self).tokens.deep_view(), old(self).pos as int)
                    == Ok::<(Seq<ActionV>, int), ParseError>(
                    (acts.deep_view(), final(self).pos as int),
                ),
                Err(err) => sp_actions(old(self).tokens.deep_view(), old(self).pos as int)
                    == Err::<(Seq<ActionV>, int), ParseError>(err),
            },
        decreases rem(self.tokens@.len() as int, self.pos as int), 6int,
    {
        let ghost dv = self.tokens.deep_view();
        let ghost p0 = self.pos as int;
        let mut actions: Vec<Action> = Vec::new();
        while !matches!(self.peek(), Some(Token::RBrace) | None)
            invariant
                self.tokens == old(self).tokens,
                dv == self.tokens.deep_view(),
                p0 == old(self).pos as int,
                p0 <= self.pos as int,
                self.pos <= self.tokens@.len(),
                act_join(actions.deep_view(), sp_actions(dv, self.pos as int)) == sp_actions(
                    dv,
                    p0,
                ),
            decreases self.tokens@.len() - self.pos,
        {
            let ghost adv0 = actions.deep_view();
            let n1 = match self.peek() {
                Some(Token::Ident(s)) => s.clone(),
                _ => {
                    return Err(ParseError::ExpectedIdent);
                },
            };
            self.advance();
            if !matches!(self.peek(), Some(Token::Dot)) {
                return Err(ParseError::ExpectedDot);
            }
            self.advance();
            let n2 = match self.peek() {
                Some(Token::Ident(s)) => s.clone(),
                _ => {
                    return Err(ParseError::ExpectedFieldName);
                },
            };
            self.advance();
            if !matches!(self.peek(), Some(Token::Assign)) {
                return Err(ParseError::ExpectedAssign);
            }
            self.advance();
            let expr = match self.parse_expr() {
                Ok(e) => e,
                Err(err) => {
                    return Err(err);
                },
            };
            if !matches!(self.peek(), Some(Token::Semicolon)) {
                return Err(ParseError::ExpectedSemicolon);
            }
            self.advance();
            let mut field = n1;
            field.append(".");
            field.append(n2.as_str());
            let act = Action::Assign { field, expr };
            let ghost av = act@;
            actions.push(act);
            proof {
                reveal_strlit(".");
                assert("."@ =~= seq!['.']);
                assert(actions.deep_view() =~= adv0.push(av));
                lemma_act_join_push(adv0, av, sp_actions(dv, self.pos as int));
            }
        }
        proof {
            assert(actions.deep_view() + Seq::<ActionV>::empty() =~= actions.deep_view());
        }
        Ok(actions)
    }

    /// Parse one whole rule:
    /// `'rule' Ident StringLit? '{' 'when' Condition 'then' Action* '}'`.
    fn parse_rule(&mut self) -> (r: Result<Rule, ParseError>)
        requires
            old(self).pos <= old(self).tokens@.len(),
        ensures
            final(self).tokens == old(self).tokens,
            old(self).pos <= final(self).pos <= final(self).tokens@.len(),
            match r {
                Ok(rule) => old(self).pos < final(self).pos && sp_rule(
                    old(self).tokens.deep_view(),
                    old(self).pos as int,
                ) == Ok::<(RuleV, int), ParseError>((rule@, final(self).pos as int)),
                Err(err) => sp_rule(old(self).tokens.deep_view(), old(self).pos as int) == Err::<
                    (RuleV, int),
                    ParseError,
                >(err),
            },
        decreases rem(self.tokens@.len() as int, self.pos as int), 7int,
    {
        if !matches!(self.peek(), Some(Token::Rule)) {
            return Err(ParseError::ExpectedRule);
        }
        self.advance();
        let name = match self.peek() {
            Some(Token::Ident(s)) => s.clone(),
            _ => {
                return Err(ParseError::ExpectedRuleName);
            },
        };
        self.advance();
        if matches!(self.peek(), Some(Token::StringLit(_))) {
            self.advance();
        }
        if !matches!(self.peek(), Some(Token::LBrace)) {
            return Err(ParseError::ExpectedLBrace);
        }
        self.advance();
        if !matches!(self.peek(), Some(Token::When)) {
            return Err(ParseError::ExpectedWhen);
        }
        self.advance();
        let condition = match self.parse_condition() {
            Ok(c) => c,
            Err(err) => {
                return Err(err);
            },
        };
        if !matches!(self.peek(), Some(Token::Then)) {
            return Err(ParseError::ExpectedThen);
        }
        self.advance();
        let actions = match self.parse_actions() {
            Ok(a) => a,
            Err(err) => {
                return Err(err);
            },
        };
        if !matches!(self.peek(), Some(Token::RBrace)) {
            return Err(ParseError::ExpectedRBrace);
        }
        self.advance();
        Ok(Rule { name, condition, actions })
    }
}

/// Parse rule source text into its ordered sequence of rules, or report the
/// first failure: the lexical error, or the construct the parser expected
/// and did not find.  There is no recovery: the first failure aborts the
/// whole parse.
pub fn parse(input: String) -> (r: Result<Vec<Rule>, ParseError>)
    ensures
        match sp_parse(input@) {
            Ok(rv) => (match r {
                Ok(rules) => rules.deep_view() == rv,
                Err(e) => false,
            }),
            Err(err) => r == Err::<Vec<Rule>, ParseError>(err),
        },
{
    let ghost inp = input@;
    let tokens = match tokenize(input) {
        Ok(t) => t,
        Err(e) => {
            return Err(ParseError::Lex(e));
        },
    };
    let ghost dv = tokens.deep_view();
    let mut parser = Parser { tokens, pos: 0 };
    let mut rules: Vec<Rule> = Vec::new();
    while parser.pos < parser.tokens.len()
        invariant
            inp == input@,
            spec_tokenize(inp) == Ok::<Seq<TokenV>, LexError>(dv),
            dv == parser.tokens.deep_view(),
            parser.pos <= parser.tokens@.len(),
            rules_join(rules.deep_view(), sp_rules(dv, parser.pos as int)) == sp_rules(dv, 0),
        decreases parser.tokens@.len() - parser.pos,
    {
        let ghost rdv0 = rules.deep_view();
        match parser.parse_rule() {
            Ok(rule) => {
                let ghost rv = rule@;
                rules.push(rule);
                proof {
                    assert(rules.deep_view() =~= rdv0.push(rv));
                    lemma_rules_join_push(rdv0, rv, sp_rules(dv, parser.pos as int));
                }
            },
            Err(e) => {
                return Err(e);
            },
        }
    }
    proof {
        assert(rules.deep_view() + Seq::<RuleV>::empty() =~= rules.deep_view());
    }
    Ok(rules)
}

/// Parsing is deterministic: the outcome is a function of the source
/// characters alone, so re-parsing identical source yields a structurally
/// identical rule sequence (`parse` ensures its result equals `sp_parse` of
/// its input).
pub proof fn lemma_parse_deterministic(s1: Seq<char>, s2: Seq<char>)
    requires
        s1 == s2,
    ensures
        sp_parse(s1) == sp_parse(s2),
{
}

} // verus!
