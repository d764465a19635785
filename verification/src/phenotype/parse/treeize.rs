//! The parser of phenotype definitions: tokens into a call tree.
//!
//! Parsing folds a state machine over the tokens. A current call collects
//! arguments; an opening parenthesis after a name pushes the current call
//! and starts collecting the named call's arguments; a closing parenthesis
//! pops, handing the finished call to the outer one as an argument. Each
//! transition's contract pins exactly how the state, the stack and the
//! current call change.

use vstd::prelude::*;
use vstd::string::*;
use crate::error::Error;
use crate::error::ErrorKind;
use crate::phenotype::parse::tokenize::Token;
use crate::phenotype::parse::tokenize::TokenV;
use crate::phenotype::parse::tokenize::Value;
use crate::phenotype::parse::tokenize::value_text;

verus! {

/// A parsed argument: a nested call or a bare value.
#[derive(Debug)]
pub enum Tree {
    Call(Call),
    Value(Value),
}

/// A named call and its arguments.
#[derive(Debug)]
pub struct Call {
    pub name: String,
    pub args: Vec<Tree>,
}

impl Call {
    /// Starts a call with no arguments yet.
    pub fn new(name: String) -> (call: Call)
        ensures
            call.name == name,
            call.args@ =~= Seq::<Tree>::empty(),
    {
        let args: Vec<Tree> = Vec::new();
        Call { name, args }
    }

    /// Appends one argument.
    pub fn add_arg(&mut self, arg: Tree)
        ensures
            final(self).name == old(self).name,
            final(self).args@ == old(self).args@.push(arg),
    {
        self.args.push(arg)
    }
}

/// Where the parse stands relative to the last token.
pub enum TreeizeState {
    Start,
    OnValue(Value),
    OnComma,
    OnOpen,
    OnClose,
}

impl TreeizeState {
    /// The initial state.
    pub fn new() -> (state: TreeizeState)
        ensures
            state is Start,
    {
        TreeizeState::Start
    }

    /// Consumes one token.
    ///
    /// A value is held back one step, since only the next token shows
    /// whether it names a call. Delimiters settle it: `(` opens a call
    /// named by the value (a number cannot name one), `,` and `)` make it
    /// an argument, and `)` additionally closes the current call into its
    /// outer one.
    pub fn next_token(self, stack: &mut Vec<Call>, call: &mut Call, token: Token) -> (result:
        Result<TreeizeState, Error>)
        ensures
            result matches Err(e) ==> e.kind == ErrorKind::Phenics,
            self is Start || self is OnComma ==> (match token {
                Token::Value(value) => result matches Ok(next) && next == TreeizeState::OnValue(
                    value,
                ) && *final(stack) == *old(stack) && *final(call) == *old(call),
                _ => result is Err && *final(stack) == *old(stack) && *final(call) == *old(call),
            }),
            self is OnOpen ==> (match token {
                Token::Value(value) => result matches Ok(next) && next == TreeizeState::OnValue(
                    value,
                ) && *final(stack) == *old(stack) && *final(call) == *old(call),
                Token::CloseParen => spec_closed(
                    old(stack)@,
                    *old(call),
                    final(stack)@,
                    *final(call),
                    result,
                ),
                _ => result is Err && *final(stack) == *old(stack) && *final(call) == *old(call),
            }),
            self matches TreeizeState::OnValue(value) ==> (match token {
                Token::OpenParens => (match value {
                    Value::Str(name) => {
                        &&& result matches Ok(next) && next is OnOpen
                        &&& final(stack)@ == old(stack)@.push(*old(call))
                        &&& final(call).name == name
                        &&& final(call).args@ =~= Seq::<Tree>::empty()
                    },
                    Value::Num(_) => result is Err && *final(stack) == *old(stack)
                        && *final(call) == *old(call),
                }),
                Token::Comma => result matches Ok(next) && next is OnComma && *final(stack)
                    == *old(stack) && final(call).name == old(call).name && final(call).args@
                    == old(call).args@.push(Tree::Value(value)),
                Token::CloseParen => exists|filled: Call|
                    filled.name == old(call).name && filled.args@ == old(call).args@.push(
                        Tree::Value(value),
                    ) && spec_closed(old(stack)@, filled, final(stack)@, *final(call), result),
                Token::Value(other) => result is Err && *final(stack) == *old(stack)
                    && *final(call) == *old(call),
            }),
            self is OnClose ==> (match token {
                Token::CloseParen => spec_closed(
                    old(stack)@,
                    *old(call),
                    final(stack)@,
                    *final(call),
                    result,
                ),
                Token::Comma => result matches Ok(next) && next is OnComma && *final(stack)
                    == *old(stack) && *final(call) == *old(call),
                _ => result is Err && *final(stack) == *old(stack) && *final(call) == *old(call),
            }),
    {
        match self {
            TreeizeState::Start => {
                match token {
                    Token::OpenParens => Err(Error::from_message("Cannot start with '('".to_owned())),
                    Token::CloseParen => Err(Error::from_message("Cannot start with ')'".to_owned())),
                    Token::Comma => Err(Error::from_message("Cannot start with ','".to_owned())),
                    Token::Value(value) => Ok(TreeizeState::OnValue(value)),
                }
            },
            TreeizeState::OnValue(value) => {
                match token {
                    Token::OpenParens => {
                        match value {
                            Value::Str(name) => {
                                let mut opened = Call::new(name);
                                core::mem::swap(call, &mut opened);
                                stack.push(opened);
                                Ok(TreeizeState::OnOpen)
                            },
                            Value::Num(number) => {
                                let mut message = "'".to_owned();
                                message.append(number.as_str());
                                message.append("' cannot be followed by '('.");
                                Err(Error::from_message(message))
                            },
                        }
                    },
                    Token::CloseParen => {
                        call.add_arg(Tree::Value(value));
                        TreeizeState::close_parens(stack, call)
                    },
                    Token::Comma => {
                        call.add_arg(Tree::Value(value));
                        Ok(TreeizeState::OnComma)
                    },
                    Token::Value(other) => {
                        let mut message = "Need to separate '".to_owned();
                        message.append(value_str(&value));
                        message.append("' and '");
                        message.append(value_str(&other));
                        message.append("'.");
                        Err(Error::from_message(message))
                    },
                }
            },
            TreeizeState::OnComma => {
                match token {
                    Token::OpenParens => Err(Error::from_message("Cannot write ',('.".to_owned())),
                    Token::CloseParen => Err(Error::from_message("Cannot write ',)'.".to_owned())),
                    Token::Comma => Err(Error::from_message("Cannot write ',,'.".to_owned())),
                    Token::Value(value) => Ok(TreeizeState::OnValue(value)),
                }
            },
            TreeizeState::OnOpen => {
                match token {
                    Token::OpenParens => Err(Error::from_message("Cannot write ',('.".to_owned())),
                    Token::CloseParen => TreeizeState::close_parens(stack, call),
                    Token::Comma => Err(Error::from_message("Cannot write '(,'.".to_owned())),
                    Token::Value(value) => Ok(TreeizeState::OnValue(value)),
                }
            },
            TreeizeState::OnClose => {
                match token {
                    Token::OpenParens => Err(Error::from_message("Cannot write ')('.".to_owned())),
                    Token::CloseParen => TreeizeState::close_parens(stack, call),
                    Token::Comma => Ok(TreeizeState::OnComma),
                    Token::Value(value) => {
                        let mut message = "Need comma between ')' and ".to_owned();
                        message.append(value_str(&value));
                        Err(Error::from_message(message))
                    },
                }
            },
        }
    }

    /// Closes the current call: pops the outer call and hands it the
    /// closed one as an argument; with nothing on the stack the `)` has no
    /// matching `(`.
    pub fn close_parens(stack: &mut Vec<Call>, call: &mut Call) -> (result: Result<
        TreeizeState,
        Error,
    >)
        ensures
            spec_closed(old(stack)@, *old(call), final(stack)@, *final(call), result),
            result matches Err(e) ==> e.kind == ErrorKind::Phenics,
    {
        match stack.pop() {
            None => Err(Error::from_message("')' with no matching '('.".to_owned())),
            Some(outer_call) => {
                let mut inner_call = outer_call;
                core::mem::swap(call, &mut inner_call);
                call.add_arg(Tree::Call(inner_call));
                Ok(TreeizeState::OnClose)
            },
        }
    }

    /// Finishes the parse: a held-back value becomes a final argument, and
    /// an unclosed `(` or a dangling separator is an error.
    pub fn end(self, stack: Vec<Call>, call: Call) -> (result: Result<Call, Error>)
        ensures
            result matches Err(e) ==> e.kind == ErrorKind::Phenics,
            result is Ok ==> stack@.len() == 0,
            self matches TreeizeState::OnValue(value) ==> (result matches Ok(root) ==> (root.name
                == call.name && root.args@ == call.args@.push(Tree::Value(value)))),
            self is OnClose ==> (result matches Ok(root) ==> root == call),
            self is OnClose ==> (result is Ok <==> stack@.len() == 0),
            self is OnValue ==> (result is Ok <==> stack@.len() == 0),
            self is Start || self is OnComma || self is OnOpen ==> result is Err,
    {
        match self {
            TreeizeState::Start => Err(Error::from_message("Missing phenotype definition".to_owned())),
            TreeizeState::OnValue(value) => {
                if stack.len() > 0 {
                    Err(Error::from_message("'(' with no matching ')'.".to_owned()))
                } else {
                    let mut root = call;
                    root.add_arg(Tree::Value(value));
                    Ok(root)
                }
            },
            TreeizeState::OnComma => Err(Error::from_message("Cannot end with a ','".to_owned())),
            TreeizeState::OnOpen => Err(Error::from_message("Cannot end with a '('".to_owned())),
            TreeizeState::OnClose => {
                if stack.len() > 0 {
                    Err(Error::from_message("'(' with no matching ')'.".to_owned()))
                } else {
                    Ok(call)
                }
            },
        }
    }
}

/// How closing a parenthesis relates the old stack and call to the new:
/// with an empty stack it fails and changes nothing; otherwise the top of
/// the stack, with the closed call appended as an argument, becomes the
/// current call.
pub open spec fn spec_closed(
    old_stack: Seq<Call>,
    closed: Call,
    new_stack: Seq<Call>,
    new_call: Call,
    result: Result<TreeizeState, Error>,
) -> bool {
    if old_stack.len() == 0 {
        result is Err && new_stack == old_stack && new_call == closed
    } else {
        &&& result matches Ok(next) && next is OnClose
        &&& new_stack == old_stack.drop_last()
        &&& new_call.name == old_stack.last().name
        &&& new_call.args@ == old_stack.last().args@.push(Tree::Call(closed))
    }
}

/// The value's text, for messages.
fn value_str(value: &Value) -> (text: &str)
    ensures
        text@ == value_text(*value),
{
    match value {
        Value::Str(text) => text.as_str(),
        Value::Num(text) => text.as_str(),
    }
}


/// The spec-level form of a parsed argument.
pub ghost enum TreeV {
    Call(CallV),
    Value(ValueV),
}

/// The spec-level form of a value.
pub ghost enum ValueV {
    Str(Seq<char>),
    Num(Seq<char>),
}

/// The spec-level form of a call.
pub ghost struct CallV {
    pub name: Seq<char>,
    pub args: Seq<TreeV>,
}

/// The value a token value models.
pub open spec fn value_view(value: Value) -> ValueV {
    match value {
        Value::Str(text) => ValueV::Str(text@),
        Value::Num(text) => ValueV::Num(text@),
    }
}

/// The tree a parsed argument models.
pub open spec fn tree_view(tree: Tree) -> TreeV
    decreases tree,
{
    match tree {
        Tree::Value(value) => TreeV::Value(value_view(value)),
        Tree::Call(call) => TreeV::Call(call_view(call)),
    }
}

/// The call a call value models.
pub open spec fn call_view(call: Call) -> CallV
    decreases call,
{
    CallV { name: call.name@, args: trees_view(call.args@) }
}

/// The trees a sequence of arguments models.
pub open spec fn trees_view(trees: Seq<Tree>) -> Seq<TreeV>
    decreases trees,
{
    if trees.len() == 0 {
        Seq::<TreeV>::empty()
    } else {
        seq![tree_view(trees.first())] + trees_view(trees.drop_first())
    }
}

/// Appending an argument appends its view.
proof fn lemma_trees_view_push(trees: Seq<Tree>, tree: Tree)
    ensures
        trees_view(trees.push(tree)) =~~= trees_view(trees).push(tree_view(tree)),
    decreases trees.len(),
{
    let pushed = trees.push(tree);
    if trees.len() == 0 {
        assert(pushed.first() == tree);
        assert(pushed.drop_first() =~= Seq::<Tree>::empty());
        assert(trees_view(pushed.drop_first()) == Seq::<TreeV>::empty());
        assert(trees_view(pushed) =~~= seq![tree_view(tree)]);
        assert(trees_view(trees).push(tree_view(tree)) =~~= seq![tree_view(tree)]);
    } else {
        assert(pushed.first() == trees.first());
        assert(pushed.drop_first() =~= trees.drop_first().push(tree));
        lemma_trees_view_push(trees.drop_first(), tree);
        assert(trees_view(pushed) == seq![tree_view(pushed.first())] + trees_view(
            pushed.drop_first(),
        ));
        assert(trees_view(pushed) =~~= trees_view(trees).push(tree_view(tree)));
    }
}

/// The spec-level form of the parse state.
pub ghost enum StateV {
    Start,
    OnValue(ValueV),
    OnComma,
    OnOpen,
    OnClose,
}

/// The state a parse state models.
pub open spec fn state_view(state: TreeizeState) -> StateV {
    match state {
        TreeizeState::Start => StateV::Start,
        TreeizeState::OnValue(value) => StateV::OnValue(value_view(value)),
        TreeizeState::OnComma => StateV::OnComma,
        TreeizeState::OnOpen => StateV::OnOpen,
        TreeizeState::OnClose => StateV::OnClose,
    }
}

/// The whole spec-level parse configuration.
pub ghost struct ParseV {
    pub state: StateV,
    pub stack: Seq<CallV>,
    pub call: CallV,
}

/// Closing at the spec level: the stack's top takes the closed call as an
/// argument and becomes current; an empty stack has no matching `(`.
pub open spec fn spec_close(p: ParseV) -> Option<ParseV> {
    if p.stack.len() == 0 {
        None
    } else {
        Some(
            ParseV {
                state: StateV::OnClose,
                stack: p.stack.drop_last(),
                call: CallV {
                    name: p.stack.last().name,
                    args: p.stack.last().args.push(TreeV::Call(p.call)),
                },
            },
        )
    }
}

/// One parse step at the spec level; `None` is a parse error.
pub open spec fn spec_step(p: ParseV, token: TokenV) -> Option<ParseV> {
    match p.state {
        StateV::Start => match token {
            TokenV::Str(text) => Some(ParseV { state: StateV::OnValue(ValueV::Str(text)), ..p }),
            TokenV::Num(text) => Some(ParseV { state: StateV::OnValue(ValueV::Num(text)), ..p }),
            _ => None,
        },
        StateV::OnValue(value) => match token {
            TokenV::Open => match value {
                ValueV::Str(name) => Some(
                    ParseV {
                        state: StateV::OnOpen,
                        stack: p.stack.push(p.call),
                        call: CallV { name, args: Seq::<TreeV>::empty() },
                    },
                ),
                ValueV::Num(_) => None,
            },
            TokenV::Comma => Some(
                ParseV {
                    state: StateV::OnComma,
                    stack: p.stack,
                    call: CallV { name: p.call.name, args: p.call.args.push(TreeV::Value(value)) },
                },
            ),
            TokenV::Close => spec_close(
                ParseV {
                    state: p.state,
                    stack: p.stack,
                    call: CallV { name: p.call.name, args: p.call.args.push(TreeV::Value(value)) },
                },
            ),
            _ => None,
        },
        StateV::OnComma => match token {
            TokenV::Str(text) => Some(ParseV { state: StateV::OnValue(ValueV::Str(text)), ..p }),
            TokenV::Num(text) => Some(ParseV { state: StateV::OnValue(ValueV::Num(text)), ..p }),
            _ => None,
        },
        StateV::OnOpen => match token {
            TokenV::Str(text) => Some(ParseV { state: StateV::OnValue(ValueV::Str(text)), ..p }),
            TokenV::Num(text) => Some(ParseV { state: StateV::OnValue(ValueV::Num(text)), ..p }),
            TokenV::Close => spec_close(p),
            _ => None,
        },
        StateV::OnClose => match token {
            TokenV::Close => spec_close(p),
            TokenV::Comma => Some(ParseV { state: StateV::OnComma, ..p }),
            _ => None,
        },
    }
}

/// Folding the steps over a token sequence.
pub open spec fn spec_fold(p: ParseV, tokens: Seq<TokenV>) -> Option<ParseV>
    decreases tokens.len(),
{
    if tokens.len() == 0 {
        Some(p)
    } else {
        match spec_step(p, tokens.first()) {
            None => None,
            Some(stepped) => spec_fold(stepped, tokens.drop_first()),
        }
    }
}

/// Finishing at the spec level: a held-back value becomes a final
/// argument; anything still open is an error.
pub open spec fn spec_end(p: ParseV) -> Option<CallV> {
    match p.state {
        StateV::OnValue(value) => if p.stack.len() == 0 {
            Some(CallV { name: p.call.name, args: p.call.args.push(TreeV::Value(value)) })
        } else {
            None
        },
        StateV::OnClose => if p.stack.len() == 0 {
            Some(p.call)
        } else {
            None
        },
        _ => None,
    }
}

/// The initial parse configuration: collecting into the root call.
pub open spec fn spec_init() -> ParseV {
    ParseV {
        state: StateV::Start,
        stack: Seq::<CallV>::empty(),
        call: CallV { name: "main"@, args: Seq::<TreeV>::empty() },
    }
}

/// What parsing a token sequence yields, if anything.
pub open spec fn spec_treeize(tokens: Seq<TokenV>) -> Option<CallV> {
    match spec_fold(spec_init(), tokens) {
        None => None,
        Some(p) => spec_end(p),
    }
}

/// The spec-level configuration the parser's state stands for.
pub open spec fn current_config(state: TreeizeState, stack: Seq<Call>, call: Call) -> ParseV {
    ParseV {
        state: state_view(state),
        stack: stack.map_values(|c: Call| call_view(c)),
        call: call_view(call),
    }
}

/// The exec transition lands exactly on the spec step: given the relations
/// the transition's contract states, the new configuration is what
/// `spec_step` yields (and an error means `spec_step` yields nothing).
proof fn lemma_close_bridge(old_stack: Seq<Call>, closed: Call, new_stack: Seq<Call>, new_call: Call)
    requires
        old_stack.len() > 0,
        new_stack == old_stack.drop_last(),
        new_call.name == old_stack.last().name,
        new_call.args@ == old_stack.last().args@.push(Tree::Call(closed)),
    ensures
        ({
            let old_views = old_stack.map_values(|c: Call| call_view(c));
            &&& new_stack.map_values(|c: Call| call_view(c)) =~= old_views.drop_last()
            &&& call_view(new_call) == (CallV {
                name: old_views.last().name,
                args: old_views.last().args.push(TreeV::Call(call_view(closed))),
            })
        }),
{
    let old_views = old_stack.map_values(|c: Call| call_view(c));
    assert(new_stack.map_values(|c: Call| call_view(c)) =~= old_views.drop_last());
    assert(old_views.last() == call_view(old_stack.last()));
    lemma_trees_view_push(old_stack.last().args@, Tree::Call(closed));
    assert(trees_view(new_call.args@) =~~= trees_view(old_stack.last().args@).push(
        TreeV::Call(call_view(closed)),
    ));
}

/// Parses a token sequence into the root call, named `main`: exactly the
/// spec-level fold of the parse steps over the tokens.
pub fn treeize(tokens: Vec<Token>) -> (result: Result<Call, Error>)
    ensures
        result matches Err(e) ==> e.kind == ErrorKind::Phenics,
        result matches Ok(root) ==> root.name@ == "main"@ && root.args@.len() >= 1,
        result matches Ok(root) ==> spec_treeize(tokens@.map_values(|t: Token| t@)) == Some(
            call_view(root),
        ),
        result is Err ==> spec_treeize(tokens@.map_values(|t: Token| t@)) is None,
{
    let ghost all_views = tokens@.map_values(|t: Token| t@);
    let mut call = Call::new("main".to_owned());
    let mut call_stack: Vec<Call> = Vec::new();
    let mut state = TreeizeState::new();
    let mut rest = tokens;
    proof {
        assert(trees_view(call.args@) == Seq::<TreeV>::empty());
        assert(call_stack@.map_values(|c: Call| call_view(c)) =~= Seq::<CallV>::empty());
        assert(rest@.map_values(|t: Token| t@) =~= all_views);
        assert(current_config(state, call_stack@, call) == spec_init());
    }
    while rest.len() > 0
        invariant
            all_views == tokens@.map_values(|t: Token| t@),
            call_stack@.len() == 0 ==> call.name@ == "main"@,
            call_stack@.len() > 0 ==> call_stack@[0].name@ == "main"@,
            call_stack@.len() == 0 && (state is OnClose || state is OnComma) ==> call.args@.len()
                >= 1,
            spec_fold(spec_init(), all_views) == spec_fold(
                current_config(state, call_stack@, call),
                rest@.map_values(|t: Token| t@),
            ),
        decreases rest@.len(),
    {
        let ghost config = current_config(state, call_stack@, call);
        let ghost rest_views = rest@.map_values(|t: Token| t@);
        let token = rest.remove(0);
        let ghost token_view = token@;
        let ghost old_state = state;
        let ghost old_stack = call_stack@;
        let ghost old_call = call;
        proof {
            assert(token_view == rest_views[0]);
            assert(rest@.map_values(|t: Token| t@) =~= rest_views.drop_first());
        }
        let step = state.next_token(&mut call_stack, &mut call, token);
        proof {
            let old_views = config.stack;
            match &step {
                Ok(next) => {
                    let stepped = current_config(*next, call_stack@, call);
                    match old_state {
                        TreeizeState::OnValue(value) => match token_view {
                            TokenV::Open => {
                                assert(call_stack@.map_values(|c: Call| call_view(c)) =~=
                                    old_views.push(call_view(old_call)));
                                assert(trees_view(call.args@) == Seq::<TreeV>::empty());
                            },
                            TokenV::Comma => {
                                lemma_trees_view_push(old_call.args@, Tree::Value(value));
                            },
                            TokenV::Close => {
                                let filled = choose|f: Call|
                                    f.name == old_call.name && f.args@ == old_call.args@.push(
                                        Tree::Value(value),
                                    ) && spec_closed(old_stack, f, call_stack@, call, step);
                                assert(filled.name == old_call.name && filled.args@
                                    == old_call.args@.push(Tree::Value(value)) && spec_closed(
                                    old_stack,
                                    filled,
                                    call_stack@,
                                    call,
                                    step,
                                ));
                                lemma_trees_view_push(old_call.args@, Tree::Value(value));
                                if old_stack.len() > 0 {
                                    lemma_close_bridge(old_stack, filled, call_stack@, call);
                                }
                            },
                            _ => {},
                        },
                        TreeizeState::OnOpen => match token_view {
                            TokenV::Close => {
                                if old_stack.len() > 0 {
                                    lemma_close_bridge(old_stack, old_call, call_stack@, call);
                                }
                            },
                            _ => {},
                        },
                        TreeizeState::OnClose => match token_view {
                            TokenV::Close => {
                                if old_stack.len() > 0 {
                                    lemma_close_bridge(old_stack, old_call, call_stack@, call);
                                }
                            },
                            _ => {},
                        },
                        _ => {},
                    }
                    assert(spec_step(config, token_view) == Some(stepped));
                },
                Err(_) => {
                    assert(spec_step(config, token_view) is None);
                    assert(rest_views.first() == token_view);
                    assert(spec_fold(config, rest_views) is None);
                    assert(spec_fold(spec_init(), all_views) is None);
                    assert(spec_treeize(all_views) is None);
                },
            }
        }
        state = match step {
            Ok(next) => next,
            Err(error) => {
                return Err(error);
            },
        };
    }
    proof {
        assert(rest@.map_values(|t: Token| t@) =~= Seq::<TokenV>::empty());
    }
    let ghost config = current_config(state, call_stack@, call);
    let ghost state0 = state;
    let ghost call0 = call;
    let result = state.end(call_stack, call);
    proof {
        match &result {
            Ok(root) => {
                match state0 {
                    TreeizeState::OnValue(value) => {
                        lemma_trees_view_push(call0.args@, Tree::Value(value));
                    },
                    _ => {},
                }
                assert(spec_end(config) == Some(call_view(*root)));
            },
            Err(_) => {
                assert(spec_end(config) is None);
            },
        }
    }
    result
}


} // verus!
