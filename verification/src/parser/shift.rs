//! A shift-reduce parser for the plainest statements: member access and calls with one
//! argument, each ended by a semicolon. It reads the tokens of the [`crate::lexer`] and
//! keeps a stack of nodes; after each token it tries its rules, each once and in order,
//! on the top of the stack.

use vstd::prelude::*;
use vstd::string::*;
use crate::ast;
use crate::ast::{
    Access, AccessView, Accessor, AccessorView, Block, Expression, ExpressionView, Identifier,
    Statement, StatementView,
};
use crate::host::Host;
use crate::interpret::value::{Value, ValueView};
use crate::lexer::{all_tokens, token_views, Lexer, Token, TokenType};
use crate::parser::grammar::reading;
use crate::text::text;

verus! {

/// What stands on the stack of the parser.
#[derive(Debug)]
pub enum Node {
    Block(Block),
    Statement(Statement),
    Expression(Expression),
    Identifier(Identifier),
    Symbol(String),
}

/// The view of a `Node`.
pub enum NodeView {
    Block(Seq<StatementView>),
    Statement(StatementView),
    Expression(ExpressionView),
    Identifier(Seq<char>),
    Symbol(Seq<char>),
}

impl View for Node {
    type V = NodeView;

    open spec fn view(&self) -> NodeView {
        match self {
            Node::Block(block) => NodeView::Block(ast::block_view(*block)),
            Node::Statement(statement) => NodeView::Statement(statement@),
            Node::Expression(expression) => NodeView::Expression(expression@),
            Node::Identifier(id) => NodeView::Identifier(id@),
            Node::Symbol(sign) => NodeView::Symbol(sign@),
        }
    }
}

/// What a rule asks of one node: its kind, and of a symbol its text.
pub enum Pattern<'a> {
    Block,
    Statement,
    Expression,
    Identifier,
    Symbol(&'a str),
}

/// The view of a `Pattern`.
pub enum PatternView {
    Block,
    Statement,
    Expression,
    Identifier,
    Symbol(Seq<char>),
}

impl<'a> View for Pattern<'a> {
    type V = PatternView;

    open spec fn view(&self) -> PatternView {
        match self {
            Pattern::Block => PatternView::Block,
            Pattern::Statement => PatternView::Statement,
            Pattern::Expression => PatternView::Expression,
            Pattern::Identifier => PatternView::Identifier,
            Pattern::Symbol(sign) => PatternView::Symbol(sign@),
        }
    }
}

/// The views of a run of nodes.
pub open spec fn node_views(nodes: Seq<Node>) -> Seq<NodeView> {
    Seq::new(nodes.len(), |i: int| nodes[i]@)
}

/// The views of a run of patterns.
pub open spec fn pattern_views(patterns: Seq<Pattern>) -> Seq<PatternView> {
    Seq::new(patterns.len(), |i: int| patterns[i]@)
}

/// A node is what a pattern asks for.
pub open spec fn fits_one(pattern: PatternView, node: NodeView) -> bool {
    match pattern {
        PatternView::Block => node is Block,
        PatternView::Statement => node is Statement,
        PatternView::Expression => node is Expression,
        PatternView::Identifier => node is Identifier,
        PatternView::Symbol(sign) => node == NodeView::Symbol(sign),
    }
}

/// The top of the stack is what the patterns ask for, the last pattern for the topmost
/// node.
pub open spec fn fits(patterns: Seq<PatternView>, stack: Seq<NodeView>) -> bool {
    &&& patterns.len() <= stack.len()
    &&& forall|j: int|
        0 <= j < patterns.len() ==> fits_one(
            #[trigger] patterns[j],
            stack[stack.len() - patterns.len() + j],
        )
}

/// The topmost `n` nodes of the stack, the topmost first.
pub open spec fn taken(stack: Seq<NodeView>, n: int) -> Seq<NodeView> {
    Seq::new(n as nat, |j: int| stack[stack.len() - 1 - j])
}

/// The stack after a rule with these patterns has been tried: where the top fits, the
/// nodes that fit are replaced by what `rule` makes of them; where not, the stack stays.
pub open spec fn reduced(
    stack: Seq<NodeView>,
    patterns: Seq<PatternView>,
    rule: spec_fn(Seq<NodeView>) -> NodeView,
) -> Seq<NodeView> {
    if fits(patterns, stack) {
        stack.take(stack.len() - patterns.len()).push(rule(taken(stack, patterns.len() as int)))
    } else {
        stack
    }
}

/// Whether a node is what a pattern asks for.
pub fn equal(p: &Pattern, n: &Node) -> (r: bool)
    ensures
        r == fits_one(p@, n@),
{
    match p {
        Pattern::Block => match n {
            Node::Block(_) => true,
            _ => false,
        },
        Pattern::Statement => match n {
            Node::Statement(_) => true,
            _ => false,
        },
        Pattern::Expression => match n {
            Node::Expression(_) => true,
            _ => false,
        },
        Pattern::Identifier => match n {
            Node::Identifier(_) => true,
            _ => false,
        },
        Pattern::Symbol(ps) => match n {
            Node::Symbol(ns) => text(ps) == *ns,
            _ => false,
        },
    }
}

/// Tries one rule: where the top of the stack fits the pattern, the nodes that fit are
/// taken off, the topmost first, and what `action` makes of them is put on.
fn reduce<F: Fn(Vec<Node>) -> Node>(
    stack: &mut Vec<Node>,
    pattern: &[Pattern],
    action: F,
) -> (r: bool)
    requires
        forall|matches: Vec<Node>|
            matches@.len() == pattern@.len() && fits(
                pattern_views(pattern@),
                node_views(matches@).reverse(),
            ) ==> call_requires(action, (matches,)),
    ensures
        r == fits(pattern_views(pattern@), node_views(old(stack)@)),
        !r ==> node_views(final(stack)@) == node_views(old(stack)@),
        r ==> exists|matches: Vec<Node>, node: Node|
            {
                &&& node_views(matches@) == taken(
                    node_views(old(stack)@),
                    pattern@.len() as int,
                )
                &&& #[trigger] call_ensures(action, (matches,), node)
                &&& node_views(final(stack)@) == node_views(old(stack)@).take(
                    old(stack)@.len() - pattern@.len(),
                ).push(node@)
            },
{
    let ghost before = node_views(stack@);
    let ghost wanted = pattern_views(pattern@);
    if pattern.len() > stack.len() {
        return false;
    }
    let base = stack.len() - pattern.len();
    let mut i: usize = 0;
    while i < pattern.len()
        invariant
            i <= pattern.len(),
            base + pattern.len() == stack.len(),
            before == node_views(stack@),
            wanted == pattern_views(pattern@),
            forall|j: int| 0 <= j < i ==> fits_one(#[trigger] wanted[j], before[base + j]),
        decreases pattern.len() - i,
    {
        if !equal(&pattern[i], &stack[base + i]) {
            assert(!fits_one(wanted[i as int], before[base + i]));
            return false;
        }
        i += 1;
    }
    assert(fits(wanted, before));
    let mut matches: Vec<Node> = Vec::new();
    let mut k: usize = 0;
    while k < pattern.len()
        invariant
            k <= pattern.len(),
            stack.len() + k == before.len(),
            base + pattern.len() == before.len(),
            matches@.len() == k,
            node_views(stack@) == before.take(before.len() - k),
            node_views(matches@) == taken(before, k as int),
        decreases pattern.len() - k,
    {
        let ghost popped = node_views(matches@);
        let ghost left = node_views(stack@);
        match stack.pop() {
            Some(node) => {
                assert(node@ == left[left.len() - 1]);
                assert(left[left.len() - 1] == before[before.len() - 1 - k]);
                matches.push(node);
                assert(node_views(matches@) =~= popped.push(node@));
                assert(node_views(matches@) =~= taken(before, k + 1));
                assert(node_views(stack@) =~= before.take(before.len() - k - 1));
            },
            None => {},
        }
        k += 1;
    }
    assert(node_views(matches@).reverse() =~= before.subrange(
        base as int,
        before.len() as int,
    ));
    assert(fits(wanted, node_views(matches@).reverse()));
    let ghost below = node_views(stack@);
    let ghost given = matches;
    let node = action(matches);
    let ghost made = node;
    stack.push(node);
    assert(node_views(stack@) =~= below.push(made@));
    assert(call_ensures(action, (given,), made));
    true
}

/// A member of a name: `a.b`.
pub open spec fn member_of_name(matches: Seq<NodeView>) -> NodeView {
    NodeView::Expression(
        ExpressionView::Access(
            AccessView::Member(
                Box::new(ExpressionView::Access(AccessView::Identifier(matches[2]->Identifier_0))),
                AccessorView::Identifier(matches[0]->Identifier_0),
            ),
        ),
    )
}

/// A member of an expression: `e.b`.
pub open spec fn member_of_expression(matches: Seq<NodeView>) -> NodeView {
    NodeView::Expression(
        ExpressionView::Access(
            AccessView::Member(
                Box::new(matches[2]->Expression_0),
                AccessorView::Identifier(matches[0]->Identifier_0),
            ),
        ),
    )
}

/// A call of an expression with one argument: `e(a)`.
pub open spec fn call_of_expression(matches: Seq<NodeView>) -> NodeView {
    NodeView::Expression(
        ExpressionView::Call(Box::new(matches[3]->Expression_0), seq![matches[1]->Expression_0]),
    )
}

/// A call of a name with one argument: `f(a)`.
pub open spec fn call_of_name(matches: Seq<NodeView>) -> NodeView {
    NodeView::Expression(
        ExpressionView::Call(
            Box::new(ExpressionView::Access(AccessView::Identifier(matches[3]->Identifier_0))),
            seq![matches[1]->Expression_0],
        ),
    )
}

/// An expression with its semicolon, as a statement.
pub open spec fn statement_of_expression(matches: Seq<NodeView>) -> NodeView {
    NodeView::Statement(StatementView::Expression(matches[1]->Expression_0))
}

/// A block with one more statement.
pub open spec fn block_with_statement(matches: Seq<NodeView>) -> NodeView {
    NodeView::Block(matches[1]->Block_0.push(matches[0]->Statement_0))
}

/// A statement as a block.
pub open spec fn block_of_statement(matches: Seq<NodeView>) -> NodeView {
    NodeView::Block(seq![matches[0]->Statement_0])
}

fn make_member_of_name(matches: Vec<Node>) -> (r: Node)
    requires
        matches@.len() == 3,
        matches@[0] is Identifier,
        matches@[2] is Identifier,
    ensures
        r@ == member_of_name(node_views(matches@)),
{
    let mut matches = matches;
    let m0 = matches.pop();
    let _ = matches.pop();
    let m2 = matches.pop();
    match (m0, m2) {
        (Some(Node::Identifier(object)), Some(Node::Identifier(member))) => {
            let made = Expression::Access(
                Access::Member(
                    Box::new(Expression::Access(Access::Identifier(object))),
                    Accessor::Identifier(member),
                ),
            );
            proof {
                reveal_with_fuel(ast::expression_view, 4);
            }
            Node::Expression(made)
        },
        _ => {
            assert(false);
            Node::Symbol(String::new())
        },
    }
}

fn make_member_of_expression(matches: Vec<Node>) -> (r: Node)
    requires
        matches@.len() == 3,
        matches@[0] is Identifier,
        matches@[2] is Expression,
    ensures
        r@ == member_of_expression(node_views(matches@)),
{
    let mut matches = matches;
    let m0 = matches.pop();
    let _ = matches.pop();
    let m2 = matches.pop();
    match (m0, m2) {
        (Some(Node::Expression(object)), Some(Node::Identifier(member))) => {
            let made = Expression::Access(
                Access::Member(Box::new(object), Accessor::Identifier(member)),
            );
            proof {
                reveal_with_fuel(ast::expression_view, 3);
            }
            Node::Expression(made)
        },
        _ => {
            assert(false);
            Node::Symbol(String::new())
        },
    }
}

fn make_call_of_expression(matches: Vec<Node>) -> (r: Node)
    requires
        matches@.len() == 4,
        matches@[1] is Expression,
        matches@[3] is Expression,
    ensures
        r@ == call_of_expression(node_views(matches@)),
{
    let mut matches = matches;
    let m0 = matches.pop();
    let _ = matches.pop();
    let m2 = matches.pop();
    let _ = matches.pop();
    match (m0, m2) {
        (Some(Node::Expression(function)), Some(Node::Expression(argument))) => {
            let ghost argument_view = argument@;
            let mut arguments: Vec<Expression> = Vec::new();
            arguments.push(argument);
            assert(ast::expressions_view(arguments) =~= seq![argument_view]);
            Node::Expression(Expression::Call(Box::new(function), arguments))
        },
        _ => {
            assert(false);
            Node::Symbol(String::new())
        },
    }
}

fn make_call_of_name(matches: Vec<Node>) -> (r: Node)
    requires
        matches@.len() == 4,
        matches@[1] is Expression,
        matches@[3] is Identifier,
    ensures
        r@ == call_of_name(node_views(matches@)),
{
    let mut matches = matches;
    let m0 = matches.pop();
    let _ = matches.pop();
    let m2 = matches.pop();
    let _ = matches.pop();
    match (m0, m2) {
        (Some(Node::Identifier(function)), Some(Node::Expression(argument))) => {
            let ghost argument_view = argument@;
            let mut arguments: Vec<Expression> = Vec::new();
            arguments.push(argument);
            assert(ast::expressions_view(arguments) =~= seq![argument_view]);
            let made = Expression::Call(
                Box::new(Expression::Access(Access::Identifier(function))),
                arguments,
            );
            proof {
                reveal_with_fuel(ast::expression_view, 3);
            }
            Node::Expression(made)
        },
        _ => {
            assert(false);
            Node::Symbol(String::new())
        },
    }
}

fn make_statement_of_expression(matches: Vec<Node>) -> (r: Node)
    requires
        matches@.len() == 2,
        matches@[1] is Expression,
    ensures
        r@ == statement_of_expression(node_views(matches@)),
{
    let mut matches = matches;
    let m0 = matches.pop();
    let _ = matches.pop();
    match m0 {
        Some(Node::Expression(expression)) => Node::Statement(Statement::Expression(expression)),
        _ => {
            assert(false);
            Node::Symbol(String::new())
        },
    }
}

fn make_block_with_statement(matches: Vec<Node>) -> (r: Node)
    requires
        matches@.len() == 2,
        matches@[0] is Statement,
        matches@[1] is Block,
    ensures
        r@ == block_with_statement(node_views(matches@)),
{
    let mut matches = matches;
    let m0 = matches.pop();
    let m1 = matches.pop();
    match (m0, m1) {
        (Some(Node::Block(block)), Some(Node::Statement(statement))) => {
            let ghost before = ast::block_view(block);
            let ghost added = statement@;
            let mut block = block;
            block.push(statement);
            assert(ast::block_view(block) =~= before.push(added));
            Node::Block(block)
        },
        _ => {
            assert(false);
            Node::Symbol(String::new())
        },
    }
}

fn make_block_of_statement(matches: Vec<Node>) -> (r: Node)
    requires
        matches@.len() == 1,
        matches@[0] is Statement,
    ensures
        r@ == block_of_statement(node_views(matches@)),
{
    let mut matches = matches;
    let m0 = matches.pop();
    match m0 {
        Some(Node::Statement(statement)) => {
            let ghost added = statement@;
            let mut block: Vec<Statement> = Vec::new();
            block.push(statement);
            assert(ast::block_view(block) =~= seq![added]);
            Node::Block(block)
        },
        _ => {
            assert(false);
            Node::Symbol(String::new())
        },
    }
}

/// The node that a token is shifted as; nothing for white space. A whole number becomes
/// the literal of `number`, the number that was read for it.
pub open spec fn node_of(token: (TokenType, Seq<char>), number: u64) -> Option<NodeView> {
    match token.0 {
        TokenType::Whitespace => None,
        TokenType::Identifier => Some(NodeView::Identifier(token.1)),
        TokenType::Integer => Some(
            NodeView::Expression(ExpressionView::Literal(ValueView::Number(number))),
        ),
        TokenType::Symbol => Some(NodeView::Symbol(token.1)),
    }
}

/// The stack after all the rules have been tried on it, each once and in order.
pub open spec fn rules_tried(stack: Seq<NodeView>) -> Seq<NodeView> {
    let s1 = reduced(
        stack,
        seq![PatternView::Identifier, PatternView::Symbol("."@), PatternView::Identifier],
        |m: Seq<NodeView>| member_of_name(m),
    );
    let s2 = reduced(
        s1,
        seq![PatternView::Expression, PatternView::Symbol("."@), PatternView::Identifier],
        |m: Seq<NodeView>| member_of_expression(m),
    );
    let s3 = reduced(
        s2,
        seq![
            PatternView::Expression,
            PatternView::Symbol("("@),
            PatternView::Expression,
            PatternView::Symbol(")"@),
        ],
        |m: Seq<NodeView>| call_of_expression(m),
    );
    let s4 = reduced(
        s3,
        seq![
            PatternView::Identifier,
            PatternView::Symbol("("@),
            PatternView::Expression,
            PatternView::Symbol(")"@),
        ],
        |m: Seq<NodeView>| call_of_name(m),
    );
    let s5 = reduced(
        s4,
        seq![PatternView::Expression, PatternView::Symbol(";"@)],
        |m: Seq<NodeView>| statement_of_expression(m),
    );
    let s6 = reduced(
        s5,
        seq![PatternView::Block, PatternView::Statement],
        |m: Seq<NodeView>| block_with_statement(m),
    );
    reduced(s6, seq![PatternView::Statement], |m: Seq<NodeView>| block_of_statement(m))
}

/// The stack after a token: white space leaves it; any other token is shifted onto it,
/// and the rules are tried.
pub open spec fn shifted(
    stack: Seq<NodeView>,
    token: (TokenType, Seq<char>),
    number: u64,
) -> Seq<NodeView> {
    match node_of(token, number) {
        None => stack,
        Some(node) => rules_tried(stack.push(node)),
    }
}

/// The stack after the first `n` of the tokens, where `numbers` holds, for each token,
/// the number that was read for it.
pub open spec fn stack_after(
    tokens: Seq<(TokenType, Seq<char>)>,
    numbers: Seq<u64>,
    n: int,
) -> Seq<NodeView>
    decreases n,
{
    if n <= 0 {
        Seq::empty()
    } else {
        shifted(stack_after(tokens, numbers, n - 1), tokens[n - 1], reading(numbers, n - 1))
    }
}

/// The block that a run of tokens spells: the block that is on top of the stack after the
/// last token, if one is.
pub open spec fn parse_tokens(tokens: Seq<(TokenType, Seq<char>)>, numbers: Seq<u64>) -> Option<
    Seq<StatementView>,
> {
    let stack = stack_after(tokens, numbers, tokens.len() as int);
    if stack.len() > 0 && stack.last() is Block {
        Some(stack.last()->Block_0)
    } else {
        None
    }
}

/// Tries all the rules on the stack, each once and in order.
fn try_rules(stack: &mut Vec<Node>)
    ensures
        node_views(final(stack)@) == rules_tried(node_views(old(stack)@)),
{
    let pattern = [Pattern::Identifier, Pattern::Symbol("."), Pattern::Identifier];
    assert(pattern_views(pattern@) =~= seq![
        PatternView::Identifier,
        PatternView::Symbol("."@),
        PatternView::Identifier,
    ]);
    reduce(
        stack,
        pattern.as_slice(),
        make_member_of_name,
    );
    let pattern = [Pattern::Expression, Pattern::Symbol("."), Pattern::Identifier];
    assert(pattern_views(pattern@) =~= seq![
        PatternView::Expression,
        PatternView::Symbol("."@),
        PatternView::Identifier,
    ]);
    reduce(
        stack,
        pattern.as_slice(),
        make_member_of_expression,
    );
    let pattern = [
        Pattern::Expression,
        Pattern::Symbol("("),
        Pattern::Expression,
        Pattern::Symbol(")"),
    ];
    assert(pattern_views(pattern@) =~= seq![
        PatternView::Expression,
        PatternView::Symbol("("@),
        PatternView::Expression,
        PatternView::Symbol(")"@),
    ]);
    reduce(
        stack,
        pattern.as_slice(),
        make_call_of_expression,
    );
    let pattern = [
        Pattern::Identifier,
        Pattern::Symbol("("),
        Pattern::Expression,
        Pattern::Symbol(")"),
    ];
    assert(pattern_views(pattern@) =~= seq![
        PatternView::Identifier,
        PatternView::Symbol("("@),
        PatternView::Expression,
        PatternView::Symbol(")"@),
    ]);
    reduce(
        stack,
        pattern.as_slice(),
        make_call_of_name,
    );
    let pattern = [Pattern::Expression, Pattern::Symbol(";")];
    assert(pattern_views(pattern@) =~= seq![PatternView::Expression, PatternView::Symbol(";"@)]);
    reduce(
        stack,
        pattern.as_slice(),
        make_statement_of_expression,
    );
    let pattern = [Pattern::Block, Pattern::Statement];
    assert(pattern_views(pattern@) =~= seq![PatternView::Block, PatternView::Statement]);
    reduce(
        stack,
        pattern.as_slice(),
        make_block_with_statement,
    );
    let pattern = [Pattern::Statement];
    assert(pattern_views(pattern@) =~= seq![PatternView::Statement]);
    assert forall|matches: Vec<Node>|
        matches@.len() == 1 && fits(
            pattern_views(pattern@),
            node_views(matches@).reverse(),
        ) implies call_requires(make_block_of_statement, (matches,)) by {
        let wanted = pattern_views(pattern@);
        assert(fits_one(wanted[0], node_views(matches@).reverse()[0]));
    }
    reduce(
        stack,
        pattern.as_slice(),
        make_block_of_statement,
    );
}

/// The parser gave what the tokens spell.
pub open spec fn is_parse(r: Option<Block>, model: Option<Seq<StatementView>>) -> bool {
    match r {
        Some(block) => model == Some(ast::block_view(block)),
        None => model.is_none(),
    }
}

/// Asks the host to read each whole number among the tokens, and gives a number for each
/// token: what the host read for a whole number, and zero for any other token.
fn read_numbers<H: Host>(host: &H, tokens: &Vec<Token>) -> (numbers: Vec<u64>)
    ensures
        numbers@.len() == tokens@.len(),
        forall|j: int|
            0 <= j < tokens@.len() && tokens@[j].which != TokenType::Integer
                ==> #[trigger] numbers@[j] == 0,
{
    let mut numbers: Vec<u64> = Vec::new();
    let mut i: usize = 0;
    while i < tokens.len()
        invariant
            i <= tokens.len(),
            numbers@.len() == i,
            forall|j: int|
                0 <= j < i && tokens@[j].which != TokenType::Integer
                    ==> #[trigger] numbers@[j] == 0,
        decreases tokens.len() - i,
    {
        match tokens[i].which {
            TokenType::Integer => numbers.push(host.number_parse(tokens[i].value)),
            _ => numbers.push(0),
        }
        i += 1;
    }
    numbers
}

/// Parses a run of tokens, with the number that was read for each, into the block that
/// they spell.
pub fn parse_read(tokens: &Vec<Token>, numbers: &Vec<u64>) -> (r: Option<Block>)
    ensures
        is_parse(r, parse_tokens(token_views(tokens@), numbers@)),
{
    let ghost spelled = token_views(tokens@);
    let mut stack: Vec<Node> = Vec::new();
    assert(node_views(stack@) =~= Seq::empty());
    let mut i: usize = 0;
    while i < tokens.len()
        invariant
            i <= tokens.len(),
            token_views(tokens@) == spelled,
            node_views(stack@) == stack_after(spelled, numbers@, i as int),
        decreases tokens.len() - i,
    {
        assert(spelled[i as int] == tokens@[i as int]@);
        let ghost before = node_views(stack@);
        match tokens[i].which {
            TokenType::Whitespace => {},
            TokenType::Identifier => {
                let node = Node::Identifier(text(tokens[i].value));
                stack.push(node);
                assert(node_views(stack@) =~= before.push(node@));
                try_rules(&mut stack);
            },
            TokenType::Integer => {
                let number: u64 = if i < numbers.len() {
                    numbers[i]
                } else {
                    0
                };
                let node = Node::Expression(Expression::Literal(Value::Number(number)));
                stack.push(node);
                assert(node_views(stack@) =~= before.push(node@));
                try_rules(&mut stack);
            },
            TokenType::Symbol => {
                let node = Node::Symbol(text(tokens[i].value));
                stack.push(node);
                assert(node_views(stack@) =~= before.push(node@));
                try_rules(&mut stack);
            },
        }
        i += 1;
    }
    match stack.pop() {
        Some(Node::Block(block)) => Some(block),
        _ => None,
    }
}

/// Parses a source of the plainest statements into the block that its tokens spell, with
/// the numbers that the host reads for its whole numbers, whatever these are. Whether
/// there is a block does not hang on the numbers.
pub fn parse<H: Host>(host: &H, source: &str) -> (r: Option<Block>)
    ensures
        exists|numbers: Seq<u64>|
            is_parse(r, #[trigger] parse_tokens(all_tokens(source@), numbers)),
        r.is_some() == parse_tokens(all_tokens(source@), Seq::empty()).is_some(),
{
    let tokens = Lexer::new(source).tokens();
    let numbers = read_numbers(host, &tokens);
    let r = parse_read(&tokens, &numbers);
    assert(is_parse(r, parse_tokens(all_tokens(source@), numbers@)));
    proof {
        law_numbers_decide_no_failure(all_tokens(source@), numbers@, Seq::empty());
    }
    r
}

/// Two nodes of one sort: both blocks, both statements, both expressions, both names, or
/// the same sign.
pub open spec fn same_sort(a: NodeView, b: NodeView) -> bool {
    match a {
        NodeView::Block(_) => b is Block,
        NodeView::Statement(_) => b is Statement,
        NodeView::Expression(_) => b is Expression,
        NodeView::Identifier(_) => b is Identifier,
        NodeView::Symbol(sign) => b == NodeView::Symbol(sign),
    }
}

/// Two stacks of equal height whose nodes are of one sort, place by place.
pub open spec fn same_sorts(a: Seq<NodeView>, b: Seq<NodeView>) -> bool {
    &&& a.len() == b.len()
    &&& forall|i: int| 0 <= i < a.len() ==> same_sort(#[trigger] a[i], b[i])
}

/// A rule whose node is of one sort whatever it is made of.
pub open spec fn of_one_sort(rule: spec_fn(Seq<NodeView>) -> NodeView) -> bool {
    forall|m: Seq<NodeView>, n: Seq<NodeView>| same_sort(#[trigger] rule(m), #[trigger] rule(n))
}

/// A rule of one sort takes stacks of the same sorts to stacks of the same sorts.
proof fn lemma_reduced_alike(
    a: Seq<NodeView>,
    b: Seq<NodeView>,
    patterns: Seq<PatternView>,
    rule: spec_fn(Seq<NodeView>) -> NodeView,
)
    requires
        same_sorts(a, b),
        of_one_sort(rule),
    ensures
        same_sorts(reduced(a, patterns, rule), reduced(b, patterns, rule)),
{
    if patterns.len() <= a.len() {
        assert forall|j: int| 0 <= j < patterns.len() implies fits_one(
            #[trigger] patterns[j],
            a[a.len() - patterns.len() + j],
        ) == fits_one(patterns[j], b[b.len() - patterns.len() + j]) by {
            assert(same_sort(a[a.len() - patterns.len() + j], b[b.len() - patterns.len() + j]));
        }
    }
    assert(fits(patterns, a) == fits(patterns, b));
    if fits(patterns, a) {
        let n = patterns.len() as int;
        let left_a = a.take(a.len() - n);
        let left_b = b.take(b.len() - n);
        let made_a = rule(taken(a, n));
        let made_b = rule(taken(b, n));
        assert(same_sort(made_a, made_b));
        let after_a = left_a.push(made_a);
        let after_b = left_b.push(made_b);
        assert forall|i: int| 0 <= i < after_a.len() implies same_sort(
            #[trigger] after_a[i],
            after_b[i],
        ) by {
            if i < left_a.len() {
                assert(same_sort(a[i], b[i]));
            }
        }
    }
}

/// Trying the rules takes stacks of the same sorts to stacks of the same sorts.
proof fn lemma_rules_alike(a: Seq<NodeView>, b: Seq<NodeView>)
    requires
        same_sorts(a, b),
    ensures
        same_sorts(rules_tried(a), rules_tried(b)),
{
    let r1 = |m: Seq<NodeView>| member_of_name(m);
    let p1 = seq![PatternView::Identifier, PatternView::Symbol("."@), PatternView::Identifier];
    lemma_reduced_alike(a, b, p1, r1);
    let (a1, b1) = (reduced(a, p1, r1), reduced(b, p1, r1));
    let r2 = |m: Seq<NodeView>| member_of_expression(m);
    let p2 = seq![PatternView::Expression, PatternView::Symbol("."@), PatternView::Identifier];
    lemma_reduced_alike(a1, b1, p2, r2);
    let (a2, b2) = (reduced(a1, p2, r2), reduced(b1, p2, r2));
    let r3 = |m: Seq<NodeView>| call_of_expression(m);
    let p3 = seq![
        PatternView::Expression,
        PatternView::Symbol("("@),
        PatternView::Expression,
        PatternView::Symbol(")"@),
    ];
    lemma_reduced_alike(a2, b2, p3, r3);
    let (a3, b3) = (reduced(a2, p3, r3), reduced(b2, p3, r3));
    let r4 = |m: Seq<NodeView>| call_of_name(m);
    let p4 = seq![
        PatternView::Identifier,
        PatternView::Symbol("("@),
        PatternView::Expression,
        PatternView::Symbol(")"@),
    ];
    lemma_reduced_alike(a3, b3, p4, r4);
    let (a4, b4) = (reduced(a3, p4, r4), reduced(b3, p4, r4));
    let r5 = |m: Seq<NodeView>| statement_of_expression(m);
    let p5 = seq![PatternView::Expression, PatternView::Symbol(";"@)];
    lemma_reduced_alike(a4, b4, p5, r5);
    let (a5, b5) = (reduced(a4, p5, r5), reduced(b4, p5, r5));
    let r6 = |m: Seq<NodeView>| block_with_statement(m);
    let p6 = seq![PatternView::Block, PatternView::Statement];
    lemma_reduced_alike(a5, b5, p6, r6);
    let (a6, b6) = (reduced(a5, p6, r6), reduced(b5, p6, r6));
    let r7 = |m: Seq<NodeView>| block_of_statement(m);
    let p7 = seq![PatternView::Statement];
    lemma_reduced_alike(a6, b6, p7, r7);
}

/// The stacks after the same tokens, read with other numbers, are of the same sorts.
proof fn lemma_stacks_alike(
    tokens: Seq<(TokenType, Seq<char>)>,
    one: Seq<u64>,
    other: Seq<u64>,
    n: int,
)
    ensures
        same_sorts(stack_after(tokens, one, n), stack_after(tokens, other, n)),
    decreases n,
{
    if n > 0 {
        lemma_stacks_alike(tokens, one, other, n - 1);
        let a = stack_after(tokens, one, n - 1);
        let b = stack_after(tokens, other, n - 1);
        let node_a = node_of(tokens[n - 1], reading(one, n - 1));
        let node_b = node_of(tokens[n - 1], reading(other, n - 1));
        if node_a is Some {
            let (pushed_a, pushed_b) = (a.push(node_a.unwrap()), b.push(node_b.unwrap()));
            assert forall|i: int| 0 <= i < pushed_a.len() implies same_sort(
                #[trigger] pushed_a[i],
                pushed_b[i],
            ) by {
                if i < a.len() {
                    assert(same_sort(a[i], b[i]));
                }
            }
            lemma_rules_alike(pushed_a, pushed_b);
        }
    }
}

/// Whether a run of tokens spells a block does not hang on the numbers that are read for
/// its whole numbers.
pub proof fn law_numbers_decide_no_failure(
    tokens: Seq<(TokenType, Seq<char>)>,
    one: Seq<u64>,
    other: Seq<u64>,
)
    ensures
        parse_tokens(tokens, one).is_some() == parse_tokens(tokens, other).is_some(),
{
    lemma_stacks_alike(tokens, one, other, tokens.len() as int);
    let a = stack_after(tokens, one, tokens.len() as int);
    let b = stack_after(tokens, other, tokens.len() as int);
    if a.len() > 0 {
        assert(same_sort(a[a.len() - 1], b[b.len() - 1]));
    }
}

} // verus!
