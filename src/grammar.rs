//! The Pulsefile grammar over tokens, as spec functions.
//!
//! ```text
//! file   := "pipeline" "{" item* "}"
//! item   := word ":" value ";"            a field
//!         | word [string] "{" ... "}"     a block
//! value  := scalar | "[" "]" | "[" scalar ("," scalar)* "]"
//! scalar := string | multiline string | word
//! ```
//! The known fields and blocks are `name`, `version`, `triggers { git { ... } }`
//! with the seven `on_*` flags and `branches`, and `steps { step "n" { ... } }`
//! with `run` and `allow_failure`. Unknown fields and blocks are skipped. A
//! field or block that appears twice takes its last value. Errors carry the
//! index of the offending token (the number of tokens: the end of the text).
use vstd::prelude::*;
use crate::lexer::{LexMode, Token, TokenKind, is_space, lemma_lex_from_wf, lex};
use crate::models::{GitTriggersView, PipelineView, StepView, default_git_triggers};

verus! {

/// A field's value: one scalar token, or the scalar tokens of a list (by
/// index).
pub enum ValueModel {
    Single(int),
    List(Seq<int>),
}

/// The start of an item: a field with its value and the index after its
/// `;`, or a block with its optional label and the index after its `{`.
pub enum HeadModel {
    Field { name: int, value: ValueModel, next: int },
    Block { name: int, label: Option<int>, body: int },
}

pub open spec fn kind_at(ts: Seq<Token>, i: int) -> Option<TokenKind> {
    if 0 <= i < ts.len() {
        Some(ts[i].kind)
    } else {
        None
    }
}

pub open spec fn is_scalar(k: Option<TokenKind>) -> bool {
    k == Some(TokenKind::Str) || k == Some(TokenKind::Multi) || k == Some(TokenKind::Word)
}

/// The content of token `k`.
pub open spec fn text_of(s: Seq<char>, ts: Seq<Token>, k: int) -> Seq<char> {
    s.subrange(ts[k].lo as int, ts[k].hi as int)
}

/// The elements of a list from token `i`, after `acc`: their indices and the
/// index after the `]`.
pub open spec fn list_from(ts: Seq<Token>, i: int, acc: Seq<int>) -> Result<(Seq<int>, int), int>
    decreases ts.len() - i,
{
    if i >= ts.len() || i < 0 {
        Err(ts.len() as int)
    } else if kind_at(ts, i) == Some(TokenKind::RBracket) && acc.len() == 0 {
        Ok((acc, i + 1))
    } else if is_scalar(kind_at(ts, i)) {
        if kind_at(ts, i + 1) == Some(TokenKind::Comma) {
            list_from(ts, i + 2, acc.push(i))
        } else if kind_at(ts, i + 1) == Some(TokenKind::RBracket) {
            Ok((acc.push(i), i + 2))
        } else {
            Err(i + 1)
        }
    } else {
        Err(i)
    }
}

/// The value that starts at token `i`, and the index after it.
pub open spec fn value_at(ts: Seq<Token>, i: int) -> Result<(ValueModel, int), int> {
    if is_scalar(kind_at(ts, i)) {
        Ok((ValueModel::Single(i), i + 1))
    } else if kind_at(ts, i) == Some(TokenKind::LBracket) {
        match list_from(ts, i + 1, seq![]) {
            Ok((ks, j)) => Ok((ValueModel::List(ks), j)),
            Err(e) => Err(e),
        }
    } else {
        Err(if i < ts.len() { i } else { ts.len() as int })
    }
}

pub open spec fn end_or(ts: Seq<Token>, i: int) -> int {
    if i < ts.len() { i } else { ts.len() as int }
}

/// The item that starts at token `i`.
pub open spec fn head_at(ts: Seq<Token>, i: int) -> Result<HeadModel, int> {
    if kind_at(ts, i) != Some(TokenKind::Word) {
        Err(end_or(ts, i))
    } else if kind_at(ts, i + 1) == Some(TokenKind::Colon) {
        match value_at(ts, i + 2) {
            Ok((v, j)) => if kind_at(ts, j) == Some(TokenKind::Semi) {
                Ok(HeadModel::Field { name: i, value: v, next: j + 1 })
            } else {
                Err(end_or(ts, j))
            },
            Err(e) => Err(e),
        }
    } else if kind_at(ts, i + 1) == Some(TokenKind::LBrace) {
        Ok(HeadModel::Block { name: i, label: None, body: i + 2 })
    } else if kind_at(ts, i + 1) == Some(TokenKind::Str) && kind_at(ts, i + 2) == Some(
        TokenKind::LBrace,
    ) {
        Ok(HeadModel::Block { name: i, label: Some(i + 1), body: i + 3 })
    } else {
        Err(end_or(ts, i + 1))
    }
}

/// The index after the `}` that closes a block whose body starts at `i`,
/// `depth` braces deep.
pub open spec fn skip_block(ts: Seq<Token>, i: int, depth: nat) -> Result<int, int>
    decreases ts.len() - i,
{
    if i >= ts.len() || i < 0 {
        Err(ts.len() as int)
    } else if kind_at(ts, i) == Some(TokenKind::LBrace) {
        skip_block(ts, i + 1, depth + 1)
    } else if kind_at(ts, i) == Some(TokenKind::RBrace) {
        if depth == 0 {
            Ok(i + 1)
        } else {
            skip_block(ts, i + 1, (depth - 1) as nat)
        }
    } else {
        skip_block(ts, i + 1, depth)
    }
}

/// Where the item that starts at `i` ends, when it is skipped.
pub open spec fn item_end(ts: Seq<Token>, h: HeadModel) -> Result<int, int> {
    match h {
        HeadModel::Field { next, .. } => Ok(next),
        HeadModel::Block { body, .. } => skip_block(ts, body, 0),
    }
}

/// The characters with leading and trailing whitespace removed.
pub open spec fn trim(x: Seq<char>) -> Seq<char> {
    let a = skip_front(x, 0);
    let b = skip_back(x, x.len() as int);
    if a <= b {
        x.subrange(a, b)
    } else {
        seq![]
    }
}

/// The first index from `i` on that holds no whitespace, or the length.
pub open spec fn skip_front(x: Seq<char>, i: int) -> int
    decreases x.len() - i,
{
    if i < 0 || i >= x.len() {
        i
    } else if is_space(x[i]) {
        skip_front(x, i + 1)
    } else {
        i
    }
}

/// The last end at or before `j` that follows no whitespace, or zero.
pub open spec fn skip_back(x: Seq<char>, j: int) -> int
    decreases j,
{
    if j <= 0 || j > x.len() {
        j
    } else if is_space(x[j - 1]) {
        skip_back(x, j - 1)
    } else {
        j
    }
}

/// Whether the value is the single word `true`.
pub open spec fn is_true(s: Seq<char>, ts: Seq<Token>, v: ValueModel) -> bool {
    match v {
        ValueModel::Single(k) => kind_at(ts, k) == Some(TokenKind::Word) && text_of(s, ts, k)
            == "true"@,
        _ => false,
    }
}

/// The body of a `step` block from token `i`, with the command and flag found
/// so far: the final command and flag, and the index of the closing `}`.
pub open spec fn step_body(s: Seq<char>, ts: Seq<Token>, i: int, run: Seq<char>, allow: bool) -> Result<
    (Seq<char>, bool, int),
    int,
>
    decreases ts.len() - i,
    via step_body_decreases
{
    if i < 0 || i >= ts.len() {
        Err(ts.len() as int)
    } else if kind_at(ts, i) == Some(TokenKind::RBrace) {
        Ok((run, allow, i))
    } else {
        match head_at(ts, i) {
            Err(e) => Err(e),
            Ok(h) => match item_end(ts, h) {
                Err(e) => Err(e),
                Ok(next) => {
                    match h {
                        HeadModel::Field { name, value, .. } => if text_of(s, ts, name) == "run"@ {
                            match value {
                                ValueModel::Single(k) => if kind_at(ts, k) == Some(TokenKind::Str)
                                    || kind_at(ts, k) == Some(TokenKind::Multi) {
                                    step_body(s, ts, next, trim(text_of(s, ts, k)), allow)
                                } else {
                                    Err(k)
                                },
                                ValueModel::List(_) => Err(name + 2),
                            }
                        } else if text_of(s, ts, name) == "allow_failure"@ {
                            step_body(s, ts, next, run, is_true(s, ts, value))
                        } else {
                            step_body(s, ts, next, run, allow)
                        },
                        HeadModel::Block { .. } => step_body(s, ts, next, run, allow),
                    }
                },
            },
        }
    }
}

/// The triggers `g` with the flag called `name` set to `v`; unknown names
/// leave them unchanged.
pub open spec fn set_flag(g: GitTriggersView, name: Seq<char>, v: bool) -> GitTriggersView {
    if name == "on_push"@ {
        GitTriggersView { on_push: v, ..g }
    } else if name == "on_pull_request"@ {
        GitTriggersView { on_pull_request: v, ..g }
    } else if name == "on_merge"@ {
        GitTriggersView { on_merge: v, ..g }
    } else if name == "on_tag"@ {
        GitTriggersView { on_tag: v, ..g }
    } else if name == "on_release"@ {
        GitTriggersView { on_release: v, ..g }
    } else if name == "on_branch_create"@ {
        GitTriggersView { on_branch_create: v, ..g }
    } else if name == "on_branch_delete"@ {
        GitTriggersView { on_branch_delete: v, ..g }
    } else {
        g
    }
}

/// Whether every token of the list is a plain string.
pub open spec fn all_strings(ts: Seq<Token>, ks: Seq<int>) -> bool {
    forall|j: int| 0 <= j < ks.len() ==> kind_at(ts, #[trigger] ks[j]) == Some(TokenKind::Str)
}

/// The contents of the listed tokens.
pub open spec fn texts_of(s: Seq<char>, ts: Seq<Token>, ks: Seq<int>) -> Seq<Seq<char>> {
    ks.map_values(|k: int| text_of(s, ts, k))
}

/// The body of the `git` block from token `i`, with the triggers found so
/// far.
pub open spec fn git_body(s: Seq<char>, ts: Seq<Token>, i: int, g: GitTriggersView) -> Result<
    (GitTriggersView, int),
    int,
>
    decreases ts.len() - i,
    via git_body_decreases
{
    if i < 0 || i >= ts.len() {
        Err(ts.len() as int)
    } else if kind_at(ts, i) == Some(TokenKind::RBrace) {
        Ok((g, i))
    } else {
        match head_at(ts, i) {
            Err(e) => Err(e),
            Ok(h) => match item_end(ts, h) {
                Err(e) => Err(e),
                Ok(next) => {
                    match h {
                        HeadModel::Field { name, value, .. } => if text_of(s, ts, name)
                            == "branches"@ {
                            match value {
                                ValueModel::List(ks) => if all_strings(ts, ks) {
                                    git_body(
                                        s,
                                        ts,
                                        next,
                                        GitTriggersView { branches: texts_of(s, ts, ks), ..g },
                                    )
                                } else {
                                    Err(name + 2)
                                },
                                ValueModel::Single(k) => Err(k),
                            }
                        } else {
                            git_body(
                                s,
                                ts,
                                next,
                                set_flag(g, text_of(s, ts, name), is_true(s, ts, value)),
                            )
                        },
                        HeadModel::Block { .. } => git_body(s, ts, next, g),
                    }
                },
            },
        }
    }
}

/// The body of the `triggers` block from token `i`.
pub open spec fn triggers_body(s: Seq<char>, ts: Seq<Token>, i: int, g: GitTriggersView) -> Result<
    (GitTriggersView, int),
    int,
>
    decreases ts.len() - i,
    via triggers_body_decreases
{
    if i < 0 || i >= ts.len() {
        Err(ts.len() as int)
    } else if kind_at(ts, i) == Some(TokenKind::RBrace) {
        Ok((g, i))
    } else {
        match head_at(ts, i) {
            Err(e) => Err(e),
            Ok(HeadModel::Block { name, body, .. }) => if text_of(s, ts, name) == "git"@ {
                match git_body(s, ts, body, default_git_triggers()) {
                    Err(e) => Err(e),
                    Ok((g2, c)) => {
                        triggers_body(s, ts, c + 1, g2)
                    },
                }
            } else {
                match skip_block(ts, body, 0) {
                    Err(e) => Err(e),
                    Ok(next) => {
                        triggers_body(s, ts, next, g)
                    },
                }
            },
            Ok(HeadModel::Field { next, .. }) => {
                triggers_body(s, ts, next, g)
            },
        }
    }
}

/// The name given by a block's label, or the empty name.
pub open spec fn label_text(s: Seq<char>, ts: Seq<Token>, label: Option<int>) -> Seq<char> {
    match label {
        Some(k) => text_of(s, ts, k),
        None => seq![],
    }
}

/// The body of the `steps` block from token `i`, with the steps found so far.
pub open spec fn steps_body(s: Seq<char>, ts: Seq<Token>, i: int, acc: Seq<StepView>) -> Result<
    (Seq<StepView>, int),
    int,
>
    decreases ts.len() - i,
    via steps_body_decreases
{
    if i < 0 || i >= ts.len() {
        Err(ts.len() as int)
    } else if kind_at(ts, i) == Some(TokenKind::RBrace) {
        Ok((acc, i))
    } else {
        match head_at(ts, i) {
            Err(e) => Err(e),
            Ok(HeadModel::Block { name, label, body }) => if text_of(s, ts, name) == "step"@ {
                match step_body(s, ts, body, seq![], false) {
                    Err(e) => Err(e),
                    Ok((run, allow, c)) => {
                        steps_body(
                            s,
                            ts,
                            c + 1,
                            acc.push(
                                StepView { name: label_text(s, ts, label), run, allow_failure: allow },
                            ),
                        )
                    },
                }
            } else {
                match skip_block(ts, body, 0) {
                    Err(e) => Err(e),
                    Ok(next) => {
                        steps_body(s, ts, next, acc)
                    },
                }
            },
            Ok(HeadModel::Field { next, .. }) => {
                steps_body(s, ts, next, acc)
            },
        }
    }
}

/// The body of the `pipeline` block from token `i`, with what was found so
/// far (an empty name or version is not set yet).
pub open spec fn pipeline_body(s: Seq<char>, ts: Seq<Token>, i: int, p: PipelineView) -> Result<
    (PipelineView, int),
    int,
>
    decreases ts.len() - i,
    via pipeline_body_decreases
{
    if i < 0 || i >= ts.len() {
        Err(ts.len() as int)
    } else if kind_at(ts, i) == Some(TokenKind::RBrace) {
        Ok((p, i))
    } else {
        match head_at(ts, i) {
            Err(e) => Err(e),
            Ok(HeadModel::Block { name, body, .. }) => if text_of(s, ts, name) == "triggers"@ {
                match triggers_body(s, ts, body, default_git_triggers()) {
                    Err(e) => Err(e),
                    Ok((g, c)) => {
                        pipeline_body(s, ts, c + 1, PipelineView { git: g, ..p })
                    },
                }
            } else if text_of(s, ts, name) == "steps"@ {
                match steps_body(s, ts, body, seq![]) {
                    Err(e) => Err(e),
                    Ok((st, c)) => {
                        pipeline_body(s, ts, c + 1, PipelineView { steps: st, ..p })
                    },
                }
            } else {
                match skip_block(ts, body, 0) {
                    Err(e) => Err(e),
                    Ok(next) => {
                        pipeline_body(s, ts, next, p)
                    },
                }
            },
            Ok(HeadModel::Field { name, value, next }) => if text_of(s, ts, name) == "name"@ || text_of(s, ts, name) == "version"@ {
                match value {
                    ValueModel::Single(k) => if kind_at(ts, k) == Some(TokenKind::Str) {
                        if text_of(s, ts, name) == "name"@ {
                            pipeline_body(s, ts, next, PipelineView { name: text_of(s, ts, k), ..p })
                        } else {
                            pipeline_body(
                                s,
                                ts,
                                next,
                                PipelineView { version: text_of(s, ts, k), ..p },
                            )
                        }
                    } else {
                        Err(k)
                    },
                    ValueModel::List(_) => Err(name + 2),
                }
            } else {
                pipeline_body(s, ts, next, p)
            },
        }
    }
}

/// A list that parses ends after its start, within the tokens.
pub proof fn lemma_list_from_bounds(ts: Seq<Token>, i: int, acc: Seq<int>)
    requires
        0 <= i,
    ensures
        list_from(ts, i, acc) matches Ok((_, j)) ==> i < j <= ts.len(),
    decreases ts.len() - i,
{
    if i < ts.len() && is_scalar(kind_at(ts, i)) && kind_at(ts, i + 1) == Some(TokenKind::Comma) {
        lemma_list_from_bounds(ts, i + 2, acc.push(i));
    }
}

/// A skipped block ends after where it is entered, within the tokens.
pub proof fn lemma_skip_block_bounds(ts: Seq<Token>, i: int, depth: nat)
    requires
        0 <= i,
    ensures
        skip_block(ts, i, depth) matches Ok(j) ==> i < j <= ts.len(),
    decreases ts.len() - i,
{
    if i < ts.len() {
        if kind_at(ts, i) == Some(TokenKind::LBrace) {
            lemma_skip_block_bounds(ts, i + 1, depth + 1);
        } else if kind_at(ts, i) == Some(TokenKind::RBrace) {
            if depth > 0 {
                lemma_skip_block_bounds(ts, i + 1, (depth - 1) as nat);
            }
        } else {
            lemma_skip_block_bounds(ts, i + 1, depth);
        }
    }
}

/// An item that parses ends after its start, within the tokens, and a
/// block's body starts after it.
pub proof fn lemma_item_bounds(ts: Seq<Token>, i: int)
    requires
        0 <= i,
    ensures
        head_at(ts, i) matches Ok(h) ==> (item_end(ts, h) matches Ok(next) ==> i < next
            <= ts.len()),
        head_at(ts, i) matches Ok(HeadModel::Block { body, .. }) ==> i < body <= ts.len(),
{
    lemma_list_from_bounds(ts, i + 3, seq![]);
    if let Ok(HeadModel::Block { body, .. }) = head_at(ts, i) {
        lemma_skip_block_bounds(ts, body, 0);
    }
}

/// The body of a `step` block ends at a `}` at or after its start.
pub proof fn lemma_step_body_bounds(s: Seq<char>, ts: Seq<Token>, i: int, run: Seq<char>, allow: bool)
    requires
        0 <= i,
    ensures
        step_body(s, ts, i, run, allow) matches Ok((_, _, c)) ==> i <= c < ts.len(),
    decreases ts.len() - i,
{
    if i < ts.len() && kind_at(ts, i) != Some(TokenKind::RBrace) {
        lemma_item_bounds(ts, i);
        if let Ok(h) = head_at(ts, i) {
            if let Ok(next) = item_end(ts, h) {
                match h {
                    HeadModel::Field { name, value, .. } => {
                        if text_of(s, ts, name) == "run"@ {
                            if let ValueModel::Single(k) = value {
                                lemma_step_body_bounds(s, ts, next, trim(text_of(s, ts, k)), allow);
                            }
                        } else if text_of(s, ts, name) == "allow_failure"@ {
                            lemma_step_body_bounds(s, ts, next, run, is_true(s, ts, value));
                        } else {
                            lemma_step_body_bounds(s, ts, next, run, allow);
                        }
                    },
                    HeadModel::Block { .. } => lemma_step_body_bounds(s, ts, next, run, allow),
                }
            }
        }
    }
}

#[via_fn]
proof fn step_body_decreases(s: Seq<char>, ts: Seq<Token>, i: int, run: Seq<char>, allow: bool) {
    if 0 <= i {
        lemma_item_bounds(ts, i);
    }
}

/// The body of the `git` block ends at a `}` at or after its start.
pub proof fn lemma_git_body_bounds(s: Seq<char>, ts: Seq<Token>, i: int, g: GitTriggersView)
    requires
        0 <= i,
    ensures
        git_body(s, ts, i, g) matches Ok((_, c)) ==> i <= c < ts.len(),
    decreases ts.len() - i,
{
    if i < ts.len() && kind_at(ts, i) != Some(TokenKind::RBrace) {
        lemma_item_bounds(ts, i);
        if let Ok(h) = head_at(ts, i) {
            if let Ok(next) = item_end(ts, h) {
                match h {
                    HeadModel::Field { name, value, .. } => {
                        if text_of(s, ts, name) == "branches"@ {
                            if let ValueModel::List(ks) = value {
                                lemma_git_body_bounds(
                                    s,
                                    ts,
                                    next,
                                    GitTriggersView { branches: texts_of(s, ts, ks), ..g },
                                );
                            }
                        } else {
                            lemma_git_body_bounds(
                                s,
                                ts,
                                next,
                                set_flag(g, text_of(s, ts, name), is_true(s, ts, value)),
                            );
                        }
                    },
                    HeadModel::Block { .. } => lemma_git_body_bounds(s, ts, next, g),
                }
            }
        }
    }
}

#[via_fn]
proof fn git_body_decreases(s: Seq<char>, ts: Seq<Token>, i: int, g: GitTriggersView) {
    if 0 <= i {
        lemma_item_bounds(ts, i);
    }
}

/// The body of the `triggers` block ends at a `}` at or after its start.
pub proof fn lemma_triggers_body_bounds(s: Seq<char>, ts: Seq<Token>, i: int, g: GitTriggersView)
    requires
        0 <= i,
    ensures
        triggers_body(s, ts, i, g) matches Ok((_, c)) ==> i <= c < ts.len(),
    decreases ts.len() - i,
{
    if i < ts.len() && kind_at(ts, i) != Some(TokenKind::RBrace) {
        lemma_item_bounds(ts, i);
        match head_at(ts, i) {
            Ok(HeadModel::Block { name, body, .. }) => {
                if text_of(s, ts, name) == "git"@ {
                    lemma_git_body_bounds(s, ts, body, default_git_triggers());
                    if let Ok((g2, c)) = git_body(s, ts, body, default_git_triggers()) {
                        lemma_triggers_body_bounds(s, ts, c + 1, g2);
                    }
                } else if let Ok(next) = skip_block(ts, body, 0) {
                    lemma_triggers_body_bounds(s, ts, next, g);
                }
            },
            Ok(HeadModel::Field { next, .. }) => lemma_triggers_body_bounds(s, ts, next, g),
            Err(_) => {},
        }
    }
}

#[via_fn]
proof fn triggers_body_decreases(s: Seq<char>, ts: Seq<Token>, i: int, g: GitTriggersView) {
    if 0 <= i {
        lemma_item_bounds(ts, i);
        if let Ok(HeadModel::Block { body, .. }) = head_at(ts, i) {
            lemma_git_body_bounds(s, ts, body, default_git_triggers());
        }
    }
}

/// The body of the `steps` block ends at a `}` at or after its start.
pub proof fn lemma_steps_body_bounds(s: Seq<char>, ts: Seq<Token>, i: int, acc: Seq<StepView>)
    requires
        0 <= i,
    ensures
        steps_body(s, ts, i, acc) matches Ok((_, c)) ==> i <= c < ts.len(),
    decreases ts.len() - i,
{
    if i < ts.len() && kind_at(ts, i) != Some(TokenKind::RBrace) {
        lemma_item_bounds(ts, i);
        match head_at(ts, i) {
            Ok(HeadModel::Block { name, label, body }) => {
                if text_of(s, ts, name) == "step"@ {
                    lemma_step_body_bounds(s, ts, body, seq![], false);
                    if let Ok((run, allow, c)) = step_body(s, ts, body, seq![], false) {
                        lemma_steps_body_bounds(
                            s,
                            ts,
                            c + 1,
                            acc.push(
                                StepView { name: label_text(s, ts, label), run, allow_failure: allow },
                            ),
                        );
                    }
                } else if let Ok(next) = skip_block(ts, body, 0) {
                    lemma_steps_body_bounds(s, ts, next, acc);
                }
            },
            Ok(HeadModel::Field { next, .. }) => lemma_steps_body_bounds(s, ts, next, acc),
            Err(_) => {},
        }
    }
}

#[via_fn]
proof fn steps_body_decreases(s: Seq<char>, ts: Seq<Token>, i: int, acc: Seq<StepView>) {
    if 0 <= i {
        lemma_item_bounds(ts, i);
        if let Ok(HeadModel::Block { body, .. }) = head_at(ts, i) {
            lemma_step_body_bounds(s, ts, body, seq![], false);
        }
    }
}

#[via_fn]
proof fn pipeline_body_decreases(s: Seq<char>, ts: Seq<Token>, i: int, p: PipelineView) {
    if 0 <= i {
        lemma_item_bounds(ts, i);
        if let Ok(HeadModel::Block { body, .. }) = head_at(ts, i) {
            lemma_triggers_body_bounds(s, ts, body, default_git_triggers());
            lemma_steps_body_bounds(s, ts, body, seq![]);
        }
    }
}

/// What a pipeline holds before its body is read.
pub open spec fn empty_pipeline() -> PipelineView {
    PipelineView { name: seq![], version: seq![], git: default_git_triggers(), steps: seq![] }
}

/// The defaults for a name and a version left empty.
pub open spec fn resolve_defaults(p: PipelineView) -> PipelineView {
    PipelineView {
        name: if p.name.len() == 0 { "default"@ } else { p.name },
        version: if p.version.len() == 0 { "1.0"@ } else { p.version },
        ..p
    }
}

/// The pipeline that the tokens describe, or the index of the offending
/// token.
pub open spec fn parse_tokens(s: Seq<char>, ts: Seq<Token>) -> Result<PipelineView, int> {
    if kind_at(ts, 0) != Some(TokenKind::Word) || text_of(s, ts, 0) != "pipeline"@ {
        Err(0)
    } else if kind_at(ts, 1) != Some(TokenKind::LBrace) {
        Err(end_or(ts, 1))
    } else {
        match pipeline_body(s, ts, 2, empty_pipeline()) {
            Err(e) => Err(e),
            Ok((p, c)) => if c + 1 == ts.len() {
                Ok(resolve_defaults(p))
            } else {
                Err(c + 1)
            },
        }
    }
}

/// Where in the text the token `k` begins (the end of the text past the last
/// token).
pub open spec fn token_position(s: Seq<char>, ts: Seq<Token>, k: int) -> int {
    if 0 <= k < ts.len() {
        ts[k].at as int
    } else {
        s.len() as int
    }
}

/// The pipeline that a Pulsefile describes, or the position in the text at
/// which it stops making sense.
pub open spec fn pulsefile(s: Seq<char>) -> Result<PipelineView, int> {
    match lex(s) {
        Err(p) => Err(p),
        Ok(ts) => match parse_tokens(s, ts) {
            Ok(p) => Ok(p),
            Err(k) => Err(token_position(s, ts, k)),
        },
    }
}

/// The pipeline that a Pulsefile with no optional part describes.
pub open spec fn default_pipeline() -> PipelineView {
    PipelineView {
        name: "default"@,
        version: "1.0"@,
        git: default_git_triggers(),
        steps: seq![],
    }
}

/// A text in which the word `pipeline` occurs nowhere is no Pulsefile.
pub proof fn lemma_needs_pipeline_keyword(s: Seq<char>)
    requires
        s.len() <= usize::MAX,
        forall|i: int| 0 <= i && i + 8 <= s.len() ==> #[trigger] s.subrange(i, i + 8) != "pipeline"@,
    ensures
        pulsefile(s) is Err,
{
    reveal_strlit("pipeline");
    lemma_lex_from_wf(s, 0, seq![], LexMode::Normal);
    if let Ok(ts) = lex(s) {
        if kind_at(ts, 0) == Some(TokenKind::Word) && text_of(s, ts, 0) == "pipeline"@ {
            let lo = ts[0].lo as int;
            assert(s.subrange(lo, lo + 8) =~= text_of(s, ts, 0));
        }
    }
}

/// A Pulsefile made of the `pipeline` block alone, empty, gets every default:
/// the name `"default"`, the version `"1.0"`, no steps, no trigger flag and
/// the branch patterns `["*"]`.
pub proof fn lemma_bare_pipeline_defaults(s: Seq<char>)
    requires
        lex(s) matches Ok(ts) && ts.len() == 3 && kind_at(ts, 0) == Some(TokenKind::Word)
            && text_of(s, ts, 0) == "pipeline"@ && kind_at(ts, 1) == Some(TokenKind::LBrace)
            && kind_at(ts, 2) == Some(TokenKind::RBrace),
    ensures
        pulsefile(s) == Ok::<PipelineView, int>(default_pipeline()),
{
    reveal_strlit("default");
    reveal_strlit("1.0");
}

/// A Pulsefile whose `pipeline` block holds only an empty
/// `triggers { git { } }` block and an empty `steps { }` block gets every
/// default as well.
pub proof fn lemma_empty_blocks_defaults(s: Seq<char>)
    requires
        lex(s) matches Ok(ts) && ts.len() == 12 && text_of(s, ts, 0) == "pipeline"@ && text_of(
            s,
            ts,
            2,
        ) == "triggers"@ && text_of(s, ts, 4) == "git"@ && text_of(s, ts, 8) == "steps"@ && kind_at(
            ts,
            0,
        ) == Some(TokenKind::Word) && kind_at(ts, 1) == Some(TokenKind::LBrace) && kind_at(ts, 2)
            == Some(TokenKind::Word) && kind_at(ts, 3) == Some(TokenKind::LBrace) && kind_at(ts, 4)
            == Some(TokenKind::Word) && kind_at(ts, 5) == Some(TokenKind::LBrace) && kind_at(ts, 6)
            == Some(TokenKind::RBrace) && kind_at(ts, 7) == Some(TokenKind::RBrace) && kind_at(ts, 8)
            == Some(TokenKind::Word) && kind_at(ts, 9) == Some(TokenKind::LBrace) && kind_at(ts, 10)
            == Some(TokenKind::RBrace) && kind_at(ts, 11) == Some(TokenKind::RBrace),
    ensures
        pulsefile(s) == Ok::<PipelineView, int>(default_pipeline()),
{
    reveal_strlit("default");
    reveal_strlit("1.0");
    reveal_strlit("triggers");
    reveal_strlit("steps");
    reveal_strlit("git");
    let ts = lex(s)->Ok_0;
    assert(git_body(s, ts, 6, default_git_triggers()) == Ok::<(GitTriggersView, int), int>(
        (default_git_triggers(), 6),
    ));
    assert(triggers_body(s, ts, 7, default_git_triggers()) == Ok::<(GitTriggersView, int), int>(
        (default_git_triggers(), 7),
    ));
    assert(triggers_body(s, ts, 4, default_git_triggers()) == Ok::<(GitTriggersView, int), int>(
        (default_git_triggers(), 7),
    ));
    assert(steps_body(s, ts, 10, seq![]) == Ok::<(Seq<StepView>, int), int>((seq![], 10)));
    let with_git = PipelineView { git: default_git_triggers(), ..empty_pipeline() };
    assert(pipeline_body(s, ts, 11, with_git) == Ok::<(PipelineView, int), int>((with_git, 11)));
    assert(pipeline_body(s, ts, 8, with_git) == Ok::<(PipelineView, int), int>((with_git, 11)));
    assert(pipeline_body(s, ts, 2, empty_pipeline()) == Ok::<(PipelineView, int), int>((with_git, 11)));
}

} // verus!
