//! Reading a Pulsefile into a `Pipeline`.
use vstd::prelude::*;
use vstd::string::*;
use crate::error::PulsioraError;
use crate::grammar::{
    HeadModel, ValueModel, all_strings, empty_pipeline, end_or, git_body, head_at, is_scalar,
    is_true, item_end, kind_at, lemma_git_body_bounds, lemma_item_bounds, lemma_step_body_bounds,
    lemma_steps_body_bounds, lemma_triggers_body_bounds, list_from, pipeline_body, pulsefile,
    set_flag, skip_back, skip_block, skip_front, step_body, steps_body, text_of, texts_of,
    token_position, triggers_body, trim, value_at,
};
use crate::lexer::{Token, TokenKind, is_space_exec, lex, token_wf, tokens_wf, tokenize};
use crate::models::{
    GitTriggers, GitTriggersView, Pipeline, PipelineView, Step, StepView, Triggers,
    default_git_triggers, steps_view, strings_view,
};
use crate::text::chars_of;

verus! {

/// A field's value: one scalar token, or the scalar tokens of a list.
enum Value {
    Single(usize),
    List(Vec<usize>),
}

/// The start of an item (see `HeadModel`).
enum Head {
    Field { name: usize, value: Value, next: usize },
    Block { name: usize, label: Option<usize>, body: usize },
}

spec fn idx_view(v: Seq<usize>) -> Seq<int> {
    v.map_values(|k: usize| k as int)
}

spec fn value_view(v: Value) -> ValueModel {
    match v {
        Value::Single(k) => ValueModel::Single(k as int),
        Value::List(ks) => ValueModel::List(idx_view(ks@)),
    }
}

spec fn head_view(h: Head) -> HeadModel {
    match h {
        Head::Field { name, value, next } => HeadModel::Field {
            name: name as int,
            value: value_view(value),
            next: next as int,
        },
        Head::Block { name, label, body } => HeadModel::Block {
            name: name as int,
            label: match label {
                Some(k) => Some(k as int),
                None => None,
            },
            body: body as int,
        },
    }
}

/// The token indices that a value holds lie among the tokens.
spec fn value_wf(n: int, v: Value) -> bool {
    match v {
        Value::Single(k) => k < n,
        Value::List(ks) => forall|j: int| 0 <= j < ks.len() ==> #[trigger] ks@[j] < n,
    }
}

spec fn head_wf(n: int, h: Head) -> bool {
    match h {
        Head::Field { name, value, .. } => name < n && value_wf(n, value) && (value is List ==> name
            + 2 < n),
        Head::Block { name, label, .. } => name < n && (label matches Some(k) ==> k < n),
    }
}

/// The characters of the text and its tokens, as the lexer gave them.
spec fn ctx(input: &str, s: &Vec<char>, ts: &Vec<Token>) -> bool {
    s@ == input@ && tokens_wf(s@.len() as int, ts@)
}

fn kind_at_x(ts: &Vec<Token>, i: usize) -> (r: Option<TokenKind>)
    ensures
        r == kind_at(ts@, i as int),
{
    if i < ts.len() {
        Some(ts[i].kind)
    } else {
        None
    }
}

fn is_scalar_x(k: Option<TokenKind>) -> (r: bool)
    ensures
        r == is_scalar(k),
{
    match k {
        Some(TokenKind::Str) => true,
        Some(TokenKind::Multi) => true,
        Some(TokenKind::Word) => true,
        _ => false,
    }
}

fn is_kind(k: Option<TokenKind>, want: TokenKind) -> (r: bool)
    ensures
        r == (k == Some(want)),
{
    match k {
        Some(x) => x == want,
        None => false,
    }
}

fn end_or_x(ts: &Vec<Token>, i: usize) -> (r: usize)
    ensures
        r as int == end_or(ts@, i as int),
{
    if i < ts.len() {
        i
    } else {
        ts.len()
    }
}

/// Whether the content of `t` is the text `lit`.
fn text_is(s: &Vec<char>, t: Token, lit: &str) -> (r: bool)
    requires
        token_wf(s@.len() as int, t),
    ensures
        r == (s@.subrange(t.lo as int, t.hi as int) == lit@),
{
    let l = chars_of(lit);
    if t.hi - t.lo != l.len() {
        return false;
    }
    let mut j: usize = 0;
    while j < l.len()
        invariant
            l@ == lit@,
            token_wf(s@.len() as int, t),
            t.hi - t.lo == l.len(),
            j <= l.len(),
            forall|q: int| 0 <= q < j ==> s@[t.lo + q] == l@[q],
        decreases l.len() - j,
    {
        if s[t.lo + j] != l[j] {
            assert(s@.subrange(t.lo as int, t.hi as int)[j as int] != lit@[j as int]);
            return false;
        }
        j = j + 1;
    }
    assert(s@.subrange(t.lo as int, t.hi as int) =~= lit@);
    true
}

/// The content of `t` as a string.
fn text(input: &str, t: Token) -> (r: String)
    requires
        token_wf(input@.len() as int, t),
    ensures
        r@ == input@.subrange(t.lo as int, t.hi as int),
{
    String::from_str(input.substring_char(t.lo, t.hi))
}

fn list_x(ts: &Vec<Token>, start: usize) -> (r: Result<(Vec<usize>, usize), usize>)
    ensures
        match r {
            Ok((v, j)) => list_from(ts@, start as int, seq![]) == Ok::<(Seq<int>, int), int>(
                (idx_view(v@), j as int),
            ) && forall|q: int| 0 <= q < v.len() ==> #[trigger] v@[q] < ts.len(),
            Err(e) => list_from(ts@, start as int, seq![]) == Err::<(Seq<int>, int), int>(e as int),
        },
{
    let mut acc: Vec<usize> = Vec::new();
    let mut i = start;
    assert(idx_view(acc@) =~= seq![]);
    loop
        invariant
            list_from(ts@, start as int, seq![]) == list_from(ts@, i as int, idx_view(acc@)),
            forall|q: int| 0 <= q < acc.len() ==> #[trigger] acc@[q] < ts.len(),
        decreases ts.len() - i,
    {
        if i >= ts.len() {
            return Err(ts.len());
        }
        let k = ts[i].kind;
        if k == TokenKind::RBracket && acc.len() == 0 {
            return Ok((acc, i + 1));
        }
        if is_scalar_x(Some(k)) {
            let next = kind_at_x(ts, i + 1);
            proof {
                assert(idx_view(acc@.push(i)) =~= idx_view(acc@).push(i as int));
            }
            if is_kind(next, TokenKind::Comma) {
                acc.push(i);
                i = i + 2;
            } else if is_kind(next, TokenKind::RBracket) {
                acc.push(i);
                return Ok((acc, i + 2));
            } else {
                return Err(i + 1);
            }
        } else {
            return Err(i);
        }
    }
}

fn value_x(ts: &Vec<Token>, i: usize) -> (r: Result<(Value, usize), usize>)
    ensures
        match r {
            Ok((v, j)) => value_at(ts@, i as int) == Ok::<(ValueModel, int), int>(
                (value_view(v), j as int),
            ) && value_wf(ts.len() as int, v) && (v is List ==> i < ts.len()),
            Err(e) => value_at(ts@, i as int) == Err::<(ValueModel, int), int>(e as int),
        },
{
    let n = ts.len();
    let k = kind_at_x(ts, i);
    assert(k is Some ==> i < n);
    if is_scalar_x(k) {
        Ok((Value::Single(i), i + 1))
    } else if is_kind(k, TokenKind::LBracket) {
        match list_x(ts, i + 1) {
            Ok((ks, j)) => Ok((Value::List(ks), j)),
            Err(e) => Err(e),
        }
    } else {
        Err(end_or_x(ts, i))
    }
}

fn head_x(ts: &Vec<Token>, i: usize) -> (r: Result<Head, usize>)
    ensures
        match r {
            Ok(h) => head_at(ts@, i as int) == Ok::<HeadModel, int>(head_view(h)) && head_wf(
                ts.len() as int,
                h,
            ),
            Err(e) => head_at(ts@, i as int) == Err::<HeadModel, int>(e as int),
        },
{
    let n = ts.len();
    if !is_kind(kind_at_x(ts, i), TokenKind::Word) {
        return Err(end_or_x(ts, i));
    }
    assert(i < n);
    let k1 = kind_at_x(ts, i + 1);
    assert(k1 is Some ==> i + 1 < n);
    if is_kind(k1, TokenKind::Colon) {
        match value_x(ts, i + 2) {
            Ok((v, j)) => {
                if is_kind(kind_at_x(ts, j), TokenKind::Semi) {
                    Ok(Head::Field { name: i, value: v, next: j + 1 })
                } else {
                    Err(end_or_x(ts, j))
                }
            },
            Err(e) => Err(e),
        }
    } else if is_kind(k1, TokenKind::LBrace) {
        Ok(Head::Block { name: i, label: None, body: i + 2 })
    } else if is_kind(k1, TokenKind::Str) && is_kind(kind_at_x(ts, i + 2), TokenKind::LBrace) {
        Ok(Head::Block { name: i, label: Some(i + 1), body: i + 3 })
    } else {
        Err(end_or_x(ts, i + 1))
    }
}

fn skip_block_x(ts: &Vec<Token>, start: usize) -> (r: Result<usize, usize>)
    ensures
        match r {
            Ok(j) => skip_block(ts@, start as int, 0) == Ok::<int, int>(j as int),
            Err(e) => skip_block(ts@, start as int, 0) == Err::<int, int>(e as int),
        },
{
    let mut i = start;
    let mut depth: usize = 0;
    loop
        invariant
            skip_block(ts@, start as int, 0) == skip_block(ts@, i as int, depth as nat),
            depth <= i,
        decreases ts.len() - i,
    {
        if i >= ts.len() {
            return Err(ts.len());
        }
        let k = ts[i].kind;
        if k == TokenKind::LBrace {
            depth = depth + 1;
        } else if k == TokenKind::RBrace {
            if depth == 0 {
                return Ok(i + 1);
            }
            depth = depth - 1;
        }
        i = i + 1;
    }
}

fn item_end_x(ts: &Vec<Token>, h: &Head) -> (r: Result<usize, usize>)
    ensures
        match r {
            Ok(j) => item_end(ts@, head_view(*h)) == Ok::<int, int>(j as int),
            Err(e) => item_end(ts@, head_view(*h)) == Err::<int, int>(e as int),
        },
{
    match h {
        Head::Field { next, .. } => Ok(*next),
        Head::Block { body, .. } => skip_block_x(ts, *body),
    }
}

/// The content of `t` without its leading and trailing whitespace.
fn trim_x(input: &str, s: &Vec<char>, t: Token) -> (r: String)
    requires
        s@ == input@,
        token_wf(s@.len() as int, t),
    ensures
        r@ == trim(s@.subrange(t.lo as int, t.hi as int)),
{
    let ghost x = s@.subrange(t.lo as int, t.hi as int);
    let mut a = t.lo;
    while a < t.hi && is_space_exec(s[a])
        invariant
            token_wf(s@.len() as int, t),
            x == s@.subrange(t.lo as int, t.hi as int),
            t.lo <= a <= t.hi,
            skip_front(x, 0) == skip_front(x, a - t.lo),
        decreases t.hi - a,
    {
        a = a + 1;
    }
    let mut b = t.hi;
    while b > t.lo && is_space_exec(s[b - 1])
        invariant
            token_wf(s@.len() as int, t),
            x == s@.subrange(t.lo as int, t.hi as int),
            t.lo <= b <= t.hi,
            skip_back(x, x.len() as int) == skip_back(x, b - t.lo),
        decreases b,
    {
        b = b - 1;
    }
    if a <= b {
        assert(x.subrange(a - t.lo, b - t.lo) =~= input@.subrange(a as int, b as int));
        String::from_str(input.substring_char(a, b))
    } else {
        String::new()
    }
}

fn is_true_x(s: &Vec<char>, ts: &Vec<Token>, v: &Value) -> (r: bool)
    requires
        tokens_wf(s@.len() as int, ts@),
        value_wf(ts.len() as int, *v),
    ensures
        r == is_true(s@, ts@, value_view(*v)),
{
    match v {
        Value::Single(k) => ts[*k].kind == TokenKind::Word && text_is(s, ts[*k], "true"),
        Value::List(_) => false,
    }
}

fn step_body_x(input: &str, s: &Vec<char>, ts: &Vec<Token>, start: usize) -> (r: Result<
    (String, bool, usize),
    usize,
>)
    requires
        ctx(input, s, ts),
    ensures
        match r {
            Ok((run, allow, c)) => step_body(s@, ts@, start as int, seq![], false) == Ok::<
                (Seq<char>, bool, int),
                int,
            >((run@, allow, c as int)) && c < ts.len(),
            Err(e) => step_body(s@, ts@, start as int, seq![], false) == Err::<
                (Seq<char>, bool, int),
                int,
            >(e as int),
        },
{
    let mut run = String::new();
    let mut allow = false;
    let mut i = start;
    loop
        invariant
            ctx(input, s, ts),
            step_body(s@, ts@, start as int, seq![], false) == step_body(s@, ts@, i as int, run@, allow),
        decreases ts.len() - i,
    {
        if i >= ts.len() {
            return Err(ts.len());
        }
        if ts[i].kind == TokenKind::RBrace {
            return Ok((run, allow, i));
        }
        let h = match head_x(ts, i) {
            Err(e) => return Err(e),
            Ok(h) => h,
        };
        proof {
            lemma_item_bounds(ts@, i as int);
        }
        let next = match item_end_x(ts, &h) {
            Err(e) => return Err(e),
            Ok(n) => n,
        };
        match h {
            Head::Field { name, value, .. } => {
                if text_is(s, ts[name], "run") {
                    match value {
                        Value::Single(k) => {
                            if ts[k].kind == TokenKind::Str || ts[k].kind == TokenKind::Multi {
                                run = trim_x(input, s, ts[k]);
                            } else {
                                return Err(k);
                            }
                        },
                        Value::List(_) => {
                            return Err(name + 2);
                        },
                    }
                } else if text_is(s, ts[name], "allow_failure") {
                    allow = is_true_x(s, ts, &value);
                }
            },
            Head::Block { .. } => {},
        }
        i = next;
    }
}

/// Sets the flag called by the content of `t` to `v`.
fn set_flag_x(s: &Vec<char>, t: Token, g: &mut GitTriggers, v: bool)
    requires
        token_wf(s@.len() as int, t),
    ensures
        final(g)@ == set_flag(old(g)@, s@.subrange(t.lo as int, t.hi as int), v),
{
    if text_is(s, t, "on_push") {
        g.on_push = v;
    } else if text_is(s, t, "on_pull_request") {
        g.on_pull_request = v;
    } else if text_is(s, t, "on_merge") {
        g.on_merge = v;
    } else if text_is(s, t, "on_tag") {
        g.on_tag = v;
    } else if text_is(s, t, "on_release") {
        g.on_release = v;
    } else if text_is(s, t, "on_branch_create") {
        g.on_branch_create = v;
    } else if text_is(s, t, "on_branch_delete") {
        g.on_branch_delete = v;
    }
}

/// The contents of the listed tokens, if every one is a plain string.
fn branch_list_x(input: &str, s: &Vec<char>, ts: &Vec<Token>, ks: &Vec<usize>) -> (r: Option<
    Vec<String>,
>)
    requires
        ctx(input, s, ts),
        forall|q: int| 0 <= q < ks.len() ==> #[trigger] ks@[q] < ts.len(),
    ensures
        match r {
            Some(v) => all_strings(ts@, idx_view(ks@)) && strings_view(v@) == texts_of(
                s@,
                ts@,
                idx_view(ks@),
            ),
            None => !all_strings(ts@, idx_view(ks@)),
        },
{
    let mut out: Vec<String> = Vec::new();
    let mut j: usize = 0;
    while j < ks.len()
        invariant
            ctx(input, s, ts),
            forall|q: int| 0 <= q < ks.len() ==> #[trigger] ks@[q] < ts.len(),
            j <= ks.len(),
            out.len() == j,
            forall|q: int|
                0 <= q < j ==> kind_at(ts@, #[trigger] idx_view(ks@)[q]) == Some(TokenKind::Str),
            forall|q: int|
                0 <= q < j ==> #[trigger] out@[q]@ == text_of(s@, ts@, idx_view(ks@)[q]),
        decreases ks.len() - j,
    {
        let k = ks[j];
        if ts[k].kind != TokenKind::Str {
            assert(kind_at(ts@, idx_view(ks@)[j as int]) != Some(TokenKind::Str));
            return None;
        }
        let b = text(input, ts[k]);
        out.push(b);
        j = j + 1;
    }
    assert(strings_view(out@) =~= texts_of(s@, ts@, idx_view(ks@)));
    Some(out)
}

fn git_body_x(input: &str, s: &Vec<char>, ts: &Vec<Token>, start: usize, g0: GitTriggers) -> (r:
    Result<(GitTriggers, usize), usize>)
    requires
        ctx(input, s, ts),
    ensures
        match r {
            Ok((g, c)) => git_body(s@, ts@, start as int, g0@) == Ok::<(GitTriggersView, int), int>(
                (g@, c as int),
            ) && c < ts.len(),
            Err(e) => git_body(s@, ts@, start as int, g0@) == Err::<(GitTriggersView, int), int>(
                e as int,
            ),
        },
{
    let mut g = g0;
    let mut i = start;
    loop
        invariant
            ctx(input, s, ts),
            git_body(s@, ts@, start as int, g0@) == git_body(s@, ts@, i as int, g@),
        decreases ts.len() - i,
    {
        if i >= ts.len() {
            return Err(ts.len());
        }
        if ts[i].kind == TokenKind::RBrace {
            return Ok((g, i));
        }
        let h = match head_x(ts, i) {
            Err(e) => return Err(e),
            Ok(h) => h,
        };
        proof {
            lemma_item_bounds(ts@, i as int);
        }
        let next = match item_end_x(ts, &h) {
            Err(e) => return Err(e),
            Ok(n) => n,
        };
        match h {
            Head::Field { name, value, .. } => {
                if text_is(s, ts[name], "branches") {
                    match value {
                        Value::List(ks) => {
                            match branch_list_x(input, s, ts, &ks) {
                                Some(v) => {
                                    g.branches = v;
                                },
                                None => {
                                    return Err(name + 2);
                                },
                            }
                        },
                        Value::Single(k) => {
                            return Err(k);
                        },
                    }
                } else {
                    let v = is_true_x(s, ts, &value);
                    set_flag_x(s, ts[name], &mut g, v);
                }
            },
            Head::Block { .. } => {},
        }
        i = next;
    }
}

fn triggers_body_x(input: &str, s: &Vec<char>, ts: &Vec<Token>, start: usize) -> (r: Result<
    (GitTriggers, usize),
    usize,
>)
    requires
        ctx(input, s, ts),
    ensures
        match r {
            Ok((g, c)) => triggers_body(s@, ts@, start as int, default_git_triggers()) == Ok::<
                (GitTriggersView, int),
                int,
            >((g@, c as int)) && c < ts.len(),
            Err(e) => triggers_body(s@, ts@, start as int, default_git_triggers()) == Err::<
                (GitTriggersView, int),
                int,
            >(e as int),
        },
{
    let mut g = GitTriggers::default();
    let mut i = start;
    loop
        invariant
            ctx(input, s, ts),
            triggers_body(s@, ts@, start as int, default_git_triggers()) == triggers_body(
                s@,
                ts@,
                i as int,
                g@,
            ),
        decreases ts.len() - i,
    {
        if i >= ts.len() {
            return Err(ts.len());
        }
        if ts[i].kind == TokenKind::RBrace {
            return Ok((g, i));
        }
        let h = match head_x(ts, i) {
            Err(e) => return Err(e),
            Ok(h) => h,
        };
        proof {
            lemma_item_bounds(ts@, i as int);
        }
        match h {
            Head::Block { name, body, .. } => {
                if text_is(s, ts[name], "git") {
                    match git_body_x(input, s, ts, body, GitTriggers::default()) {
                        Err(e) => return Err(e),
                        Ok((g2, c)) => {
                            proof {
                                lemma_git_body_bounds(s@, ts@, body as int, default_git_triggers());
                            }
                            g = g2;
                            i = c + 1;
                        },
                    }
                } else {
                    match skip_block_x(ts, body) {
                        Err(e) => return Err(e),
                        Ok(next) => {
                            i = next;
                        },
                    }
                }
            },
            Head::Field { next, .. } => {
                i = next;
            },
        }
    }
}

fn steps_body_x(input: &str, s: &Vec<char>, ts: &Vec<Token>, start: usize) -> (r: Result<
    (Vec<Step>, usize),
    usize,
>)
    requires
        ctx(input, s, ts),
    ensures
        match r {
            Ok((v, c)) => steps_body(s@, ts@, start as int, seq![]) == Ok::<(Seq<StepView>, int), int>(
                (steps_view(v@), c as int),
            ) && c < ts.len(),
            Err(e) => steps_body(s@, ts@, start as int, seq![]) == Err::<(Seq<StepView>, int), int>(
                e as int,
            ),
        },
{
    let mut acc: Vec<Step> = Vec::new();
    let mut i = start;
    assert(steps_view(acc@) =~= seq![]);
    loop
        invariant
            ctx(input, s, ts),
            steps_body(s@, ts@, start as int, seq![]) == steps_body(
                s@,
                ts@,
                i as int,
                steps_view(acc@),
            ),
        decreases ts.len() - i,
    {
        if i >= ts.len() {
            return Err(ts.len());
        }
        if ts[i].kind == TokenKind::RBrace {
            return Ok((acc, i));
        }
        let h = match head_x(ts, i) {
            Err(e) => return Err(e),
            Ok(h) => h,
        };
        proof {
            lemma_item_bounds(ts@, i as int);
        }
        match h {
            Head::Block { name, label, body } => {
                if text_is(s, ts[name], "step") {
                    match step_body_x(input, s, ts, body) {
                        Err(e) => return Err(e),
                        Ok((run, allow, c)) => {
                            proof {
                                lemma_step_body_bounds(s@, ts@, body as int, seq![], false);
                            }
                            let step_name = match label {
                                Some(k) => text(input, ts[k]),
                                None => String::new(),
                            };
                            let step = Step { name: step_name, run, allow_failure: allow };
                            proof {
                                assert(steps_view(acc@.push(step)) =~= steps_view(acc@).push(
                                    step@,
                                ));
                            }
                            acc.push(step);
                            i = c + 1;
                        },
                    }
                } else {
                    match skip_block_x(ts, body) {
                        Err(e) => return Err(e),
                        Ok(next) => {
                            i = next;
                        },
                    }
                }
            },
            Head::Field { next, .. } => {
                i = next;
            },
        }
    }
}

fn pipeline_body_x(input: &str, s: &Vec<char>, ts: &Vec<Token>, start: usize, initial: Pipeline) -> (r:
    Result<(Pipeline, usize), usize>)
    requires
        ctx(input, s, ts),
    ensures
        match r {
            Ok((p, c)) => pipeline_body(s@, ts@, start as int, initial@) == Ok::<(PipelineView, int), int>(
                (p@, c as int),
            ) && c < ts.len(),
            Err(e) => pipeline_body(s@, ts@, start as int, initial@) == Err::<(PipelineView, int), int>(
                e as int,
            ),
        },
{
    let mut p = initial;
    let mut i = start;
    loop
        invariant
            ctx(input, s, ts),
            pipeline_body(s@, ts@, start as int, initial@) == pipeline_body(s@, ts@, i as int, p@),
        decreases ts.len() - i,
    {
        if i >= ts.len() {
            return Err(ts.len());
        }
        if ts[i].kind == TokenKind::RBrace {
            return Ok((p, i));
        }
        let h = match head_x(ts, i) {
            Err(e) => return Err(e),
            Ok(h) => h,
        };
        proof {
            lemma_item_bounds(ts@, i as int);
        }
        match h {
            Head::Block { name, body, .. } => {
                if text_is(s, ts[name], "triggers") {
                    match triggers_body_x(input, s, ts, body) {
                        Err(e) => return Err(e),
                        Ok((g, c)) => {
                            proof {
                                lemma_triggers_body_bounds(s@, ts@, body as int, default_git_triggers());
                            }
                            p.triggers = Triggers { git: g };
                            i = c + 1;
                        },
                    }
                } else if text_is(s, ts[name], "steps") {
                    match steps_body_x(input, s, ts, body) {
                        Err(e) => return Err(e),
                        Ok((v, c)) => {
                            proof {
                                lemma_steps_body_bounds(s@, ts@, body as int, seq![]);
                            }
                            p.steps = v;
                            i = c + 1;
                        },
                    }
                } else {
                    match skip_block_x(ts, body) {
                        Err(e) => return Err(e),
                        Ok(next) => {
                            i = next;
                        },
                    }
                }
            },
            Head::Field { name, value, next } => {
                let is_name = text_is(s, ts[name], "name");
                if is_name || text_is(s, ts[name], "version") {
                    match value {
                        Value::Single(k) => {
                            if ts[k].kind == TokenKind::Str {
                                if is_name {
                                    p.name = text(input, ts[k]);
                                } else {
                                    p.version = text(input, ts[k]);
                                }
                            } else {
                                return Err(k);
                            }
                        },
                        Value::List(_) => {
                            return Err(name + 2);
                        },
                    }
                }
                i = next;
            },
        }
    }
}

/// Where the quoted part of an error message ends: at the end of the line,
/// of the text, or at `limit`.
pub open spec fn snippet_end(s: Seq<char>, i: int, limit: int) -> int
    decreases limit - i,
{
    if i >= limit || i >= s.len() || i < 0 || s[i] == '\n' {
        i
    } else {
        snippet_end(s, i + 1, limit)
    }
}

/// The line and column (both from 1) of position `pos`, counting from
/// position `i` at line `l` and column `c`.
pub open spec fn line_col_from(s: Seq<char>, i: int, pos: int, l: nat, c: nat) -> (nat, nat)
    decreases pos - i,
{
    if i >= pos || i < 0 || i >= s.len() {
        (l, c)
    } else if s[i] == '\n' {
        line_col_from(s, i + 1, pos, l + 1, 1)
    } else {
        line_col_from(s, i + 1, pos, l, c + 1)
    }
}

/// The line and column (both from 1) of position `pos` in the text.
pub open spec fn line_col(s: Seq<char>, pos: int) -> (nat, nat) {
    line_col_from(s, 0, pos, 1, 1)
}

pub open spec fn digit_char(d: nat) -> char {
    if d == 0 {
        '0'
    } else if d == 1 {
        '1'
    } else if d == 2 {
        '2'
    } else if d == 3 {
        '3'
    } else if d == 4 {
        '4'
    } else if d == 5 {
        '5'
    } else if d == 6 {
        '6'
    } else if d == 7 {
        '7'
    } else if d == 8 {
        '8'
    } else {
        '9'
    }
}

/// The decimal digits of `n`.
pub open spec fn decimal(n: nat) -> Seq<char>
    decreases n,
{
    if n < 10 {
        seq![digit_char(n)]
    } else {
        decimal(n / 10).push(digit_char(n % 10))
    }
}

/// The message of a parse error at position `pos` of the text: its line and
/// column, then the end of the input, or the text found there up to the end
/// of its line (at most 40 characters).
pub open spec fn error_message(s: Seq<char>, pos: int) -> Seq<char> {
    "line "@ + decimal(line_col(s, pos).0) + ", column "@ + decimal(line_col(s, pos).1) + ": "@ + if pos
        >= s.len() {
        "unexpected end of input"@
    } else {
        "unexpected input at: "@ + s.subrange(pos, snippet_end(s, pos, pos + 40))
    }
}

fn digit_str(d: u128) -> (r: &'static str)
    requires
        d < 10,
    ensures
        r@ == seq![digit_char(d as nat)],
{
    proof {
        reveal_strlit("0");
        reveal_strlit("1");
        reveal_strlit("2");
        reveal_strlit("3");
        reveal_strlit("4");
        reveal_strlit("5");
        reveal_strlit("6");
        reveal_strlit("7");
        reveal_strlit("8");
        reveal_strlit("9");
    }
    if d == 0 {
        "0"
    } else if d == 1 {
        "1"
    } else if d == 2 {
        "2"
    } else if d == 3 {
        "3"
    } else if d == 4 {
        "4"
    } else if d == 5 {
        "5"
    } else if d == 6 {
        "6"
    } else if d == 7 {
        "7"
    } else if d == 8 {
        "8"
    } else {
        "9"
    }
}

/// The decimal digits of `n`.
fn decimal_x(n: u128) -> (r: String)
    ensures
        r@ == decimal(n as nat),
    decreases n,
{
    if n < 10 {
        String::from_str(digit_str(n))
    } else {
        decimal_x(n / 10).concat(digit_str(n % 10))
    }
}

/// The line and column of position `pos`.
fn line_col_x(s: &Vec<char>, pos: usize) -> (r: (u128, u128))
    requires
        pos <= s.len(),
    ensures
        r.0 as nat == line_col(s@, pos as int).0,
        r.1 as nat == line_col(s@, pos as int).1,
{
    let mut l: u128 = 1;
    let mut c: u128 = 1;
    let mut i: usize = 0;
    while i < pos
        invariant
            pos <= s.len(),
            i <= pos,
            1 <= l <= i + 1,
            1 <= c <= i + 1,
            line_col(s@, pos as int) == line_col_from(s@, i as int, pos as int, l as nat, c as nat),
        decreases pos - i,
    {
        if s[i] == '\n' {
            l = l + 1;
            c = 1;
        } else {
            c = c + 1;
        }
        i = i + 1;
    }
    (l, c)
}

fn parse_failure(input: &str, s: &Vec<char>, pos: usize) -> (r: PulsioraError)
    requires
        s@ == input@,
        pos <= s.len(),
    ensures
        r == PulsioraError::ParseError(r->ParseError_0),
        r->ParseError_0@ == error_message(input@, pos as int),
{
    let (l, c) = line_col_x(s, pos);
    let place = String::from_str("line ").concat(decimal_x(l).as_str()).concat(", column ").concat(
        decimal_x(c).as_str(),
    ).concat(": ");
    if pos >= s.len() {
        return PulsioraError::ParseError(place.concat("unexpected end of input"));
    }
    let limit: usize = if s.len() - pos > 40 {
        pos + 40
    } else {
        s.len()
    };
    let mut e = pos;
    while e < limit && s[e] != '\n'
        invariant
            pos <= e <= limit <= s.len(),
            limit <= pos + 40,
            snippet_end(s@, pos as int, pos + 40) == snippet_end(s@, e as int, pos + 40),
        decreases limit - e,
    {
        e = e + 1;
    }
    let m = place.concat("unexpected input at: ").concat(input.substring_char(pos, e));
    PulsioraError::ParseError(m)
}

/// Position of token `k` in the text (the end of the text past the last
/// token).
fn token_position_x(s: &Vec<char>, ts: &Vec<Token>, k: usize) -> (r: usize)
    requires
        tokens_wf(s@.len() as int, ts@),
    ensures
        r as int == token_position(s@, ts@, k as int),
        r <= s.len(),
{
    if k < ts.len() {
        ts[k].at
    } else {
        s.len()
    }
}

/// Parses a Pulsefile. It succeeds exactly when the text follows the grammar
/// (see `grammar`), with the name `"default"` and the version `"1.0"` where the
/// file gives none (or an empty one); otherwise the error is a `ParseError`
/// that quotes where the text goes wrong.
pub fn parse_pulsefile(input: &str) -> (r: Result<Pipeline, PulsioraError>)
    ensures
        match r {
            Ok(p) => pulsefile(input@) == Ok::<PipelineView, int>(p@),
            Err(e) => pulsefile(input@) is Err && e is ParseError && e->ParseError_0@
                == error_message(input@, pulsefile(input@)->Err_0),
        },
{
    let s = chars_of(input);
    let ts = match tokenize(&s) {
        Err(pos) => {
            return Err(parse_failure(input, &s, pos));
        },
        Ok(ts) => ts,
    };
    proof {
        assert(lex(s@) == Ok::<Seq<Token>, int>(ts@));
    }
    if !is_kind(kind_at_x(&ts, 0), TokenKind::Word) || !text_is(&s, ts[0], "pipeline") {
        return Err(parse_failure(input, &s, token_position_x(&s, &ts, 0)));
    }
    if !is_kind(kind_at_x(&ts, 1), TokenKind::LBrace) {
        let k = end_or_x(&ts, 1);
        return Err(parse_failure(input, &s, token_position_x(&s, &ts, k)));
    }
    let initial = Pipeline {
        name: String::new(),
        version: String::new(),
        triggers: Triggers { git: GitTriggers::default() },
        steps: Vec::new(),
    };
    assert(initial@ == empty_pipeline()) by {
        assert(steps_view(initial.steps@) =~= seq![]);
    }
    match pipeline_body_x(input, &s, &ts, 2, initial) {
        Err(k) => Err(parse_failure(input, &s, token_position_x(&s, &ts, k))),
        Ok((p, c)) => {
            if c + 1 != ts.len() {
                return Err(parse_failure(input, &s, token_position_x(&s, &ts, c + 1)));
            }
            let mut p = p;
            if p.name.as_str().is_empty() {
                p.name = String::from_str("default");
            }
            if p.version.as_str().is_empty() {
                p.version = String::from_str("1.0");
            }
            Ok(p)
        },
    }
}

} // verus!
