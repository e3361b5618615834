use vstd::prelude::*;
use crate::display::{int_text, push_unsigned};
use crate::engine::{Type, Val};
use crate::number::{parse_u64, parse_u64_spec};
use crate::token::{Token, TokenView};

verus! {

/// Why a token sequence is not a Silicon file.
#[derive(Clone, Copy, Debug, PartialEq, Eq, Structural)]
pub enum ParseError {
    UnexpectedToken,
    UnexpectedEof,
    /// A number token that is not a decimal `u64`.
    InvalidNumber,
}

/// The tokens of a file and a read position.
pub struct TokenStream {
    tokens: Vec<Token>,
    count: usize,
}

/// The token at `pos`, if any.
pub open spec fn tok(ts: Seq<TokenView>, pos: int) -> Option<TokenView> {
    if 0 <= pos < ts.len() {
        Some(ts[pos])
    } else {
        None
    }
}

/// A value written in source: a string literal, a name, or a number.
pub enum NodeValue {
    Str(Seq<char>),
    Id(Seq<char>),
    Num(u64),
}

/// A declaration `var id : type = value`.
pub struct VarView {
    pub constant: bool,
    pub id: Seq<char>,
    pub var_type: Seq<char>,
    pub val: Option<NodeValue>,
}

/// A statement of a function body.
pub enum StmtView {
    Print(Option<NodeValue>),
    Var(VarView),
}

/// A function: its name and its statements.
pub struct FunctionView {
    pub identifier: Seq<char>,
    pub children: Seq<StmtView>,
}

/// The value token at `pos`.
pub open spec fn value_at(ts: Seq<TokenView>, pos: int) -> Result<NodeValue, ParseError> {
    match tok(ts, pos) {
        None => Err(ParseError::UnexpectedEof),
        Some(TokenView::Str(s)) => Ok(NodeValue::Str(s)),
        Some(TokenView::Word(w)) => Ok(NodeValue::Id(w)),
        Some(TokenView::Num(n)) => match parse_u64_spec(n) {
            Some(v) => Ok(NodeValue::Num(v)),
            None => Err(ParseError::InvalidNumber),
        },
        Some(_) => Err(ParseError::UnexpectedToken),
    }
}

/// The name token at `pos`.
pub open spec fn word_at(ts: Seq<TokenView>, pos: int) -> Result<Seq<char>, ParseError> {
    match tok(ts, pos) {
        None => Err(ParseError::UnexpectedEof),
        Some(TokenView::Word(w)) => Ok(w),
        Some(_) => Err(ParseError::UnexpectedToken),
    }
}

/// The rest of a declaration after its keyword, `id : type = value`, read
/// from `pos`; it spans five tokens.
pub open spec fn declaration_at(ts: Seq<TokenView>, pos: int) -> Result<VarView, ParseError> {
    match word_at(ts, pos) {
        Err(e) => Err(e),
        Ok(id) => match tok(ts, pos + 1) {
            None => Err(ParseError::UnexpectedEof),
            Some(TokenView::Colin) => match word_at(ts, pos + 2) {
                Err(e) => Err(e),
                Ok(var_type) => match tok(ts, pos + 3) {
                    None => Err(ParseError::UnexpectedEof),
                    Some(TokenView::Assign) => match value_at(ts, pos + 4) {
                        Err(e) => Err(e),
                        Ok(v) => Ok(VarView { constant: false, id, var_type, val: Some(v) }),
                    },
                    Some(_) => Err(ParseError::UnexpectedToken),
                },
            },
            Some(_) => Err(ParseError::UnexpectedToken),
        },
    }
}

/// A function after its keyword: newlines up to `{`, then statements up to
/// `}`. `body` is false while still before the `{`. Yields the statements
/// and the position after the `}`.
pub open spec fn function_from(ts: Seq<TokenView>, pos: int, body: bool, acc: Seq<StmtView>) -> Result<(Seq<StmtView>, int), ParseError>
    decreases ts.len() - pos,
{
    if pos < 0 || pos >= ts.len() {
        Err(ParseError::UnexpectedEof)
    } else if !body {
        match ts[pos] {
            TokenView::Newline => function_from(ts, pos + 1, false, acc),
            TokenView::BlockIn => function_from(ts, pos + 1, true, acc),
            _ => Err(ParseError::UnexpectedToken),
        }
    } else {
        match ts[pos] {
            TokenView::BlockOut => Ok((acc, pos + 1)),
            TokenView::Newline => function_from(ts, pos + 1, true, acc),
            TokenView::Print => match value_at(ts, pos + 1) {
                Ok(v) => function_from(ts, pos + 2, true, acc.push(StmtView::Print(Some(v)))),
                Err(e) => Err(e),
            },
            TokenView::Var => match declaration_at(ts, pos + 1) {
                Ok(d) => function_from(ts, pos + 6, true, acc.push(StmtView::Var(d))),
                Err(e) => Err(e),
            },
            _ => Err(ParseError::UnexpectedToken),
        }
    }
}

/// A file from `pos`: newlines and `main` functions up to the end.
pub open spec fn file_from(ts: Seq<TokenView>, pos: int, mains: Seq<FunctionView>) -> Result<Seq<FunctionView>, ParseError>
    decreases ts.len() - pos,
{
    if pos < 0 || pos >= ts.len() {
        Ok(mains)
    } else {
        match ts[pos] {
            TokenView::Newline => file_from(ts, pos + 1, mains),
            TokenView::Main => match function_from(ts, pos + 1, false, Seq::empty()) {
                Ok((children, end)) => if pos < end <= ts.len() {
                    file_from(ts, end, mains.push(FunctionView { identifier: "<main>"@, children }))
                } else {
                    Err(ParseError::UnexpectedEof)
                },
                Err(e) => Err(e),
            },
            _ => Err(ParseError::UnexpectedToken),
        }
    }
}

proof fn lemma_function_advances(ts: Seq<TokenView>, pos: int, body: bool, acc: Seq<StmtView>)
    requires
        function_from(ts, pos, body, acc) is Ok,
    ensures
        pos < function_from(ts, pos, body, acc)->Ok_0.1 <= ts.len(),
    decreases ts.len() - pos,
{
    if 0 <= pos < ts.len() {
        if !body {
            match ts[pos] {
                TokenView::Newline => lemma_function_advances(ts, pos + 1, false, acc),
                TokenView::BlockIn => lemma_function_advances(ts, pos + 1, true, acc),
                _ => {},
            }
        } else {
            match ts[pos] {
                TokenView::Newline => lemma_function_advances(ts, pos + 1, true, acc),
                TokenView::Print => {
                    let v = value_at(ts, pos + 1)->Ok_0;
                    lemma_function_advances(ts, pos + 2, true, acc.push(StmtView::Print(Some(v))));
                },
                TokenView::Var => {
                    let d = declaration_at(ts, pos + 1)->Ok_0;
                    lemma_function_advances(ts, pos + 6, true, acc.push(StmtView::Var(d)));
                },
                _ => {},
            }
        }
    }
}

impl TokenStream {
    pub closed spec fn tokens_spec(&self) -> Seq<TokenView> {
        self.tokens@.map_values(|t: Token| t@)
    }

    pub closed spec fn position(&self) -> int {
        self.count as int
    }

    /// A stream over `tokens`, positioned at the first.
    pub fn new(tokens: Vec<Token>) -> (r: TokenStream)
        ensures
            r.tokens_spec() == tokens@.map_values(|t: Token| t@),
            r.position() == 0,
    {
        TokenStream { tokens, count: 0 }
    }

    /// The token at the read position, which then moves on; `None` at the end.
    pub fn next(&mut self) -> (r: Option<Token>)
        ensures
            final(self).tokens_spec() == old(self).tokens_spec(),
            old(self).position() < old(self).tokens_spec().len() ==> r is Some && r->0@ == old(
                self,
            ).tokens_spec()[old(self).position()] && final(self).position() == old(self).position() + 1,
            old(self).position() >= old(self).tokens_spec().len() ==> r is None && final(self).position()
                == old(self).position(),
    {
        if self.count >= self.tokens.len() {
            return None;
        }
        let next_token = self.tokens[self.count].duplicate();
        self.count = self.count + 1;
        Some(next_token)
    }

    /// Moves the read position back by one token.
    pub fn back(&mut self)
        requires
            old(self).position() > 0,
        ensures
            final(self).tokens_spec() == old(self).tokens_spec(),
            final(self).position() == old(self).position() - 1,
    {
        self.count = self.count - 1;
    }
}


/// Shared by every node of the syntax tree.
pub trait Node {
    /// Whether the node is a binary operation of an expression.
    fn is_operation(&self) -> (r: bool);
}

/// A string literal.
pub struct StringNode {
    the_str: String,
}

/// A name to look up.
pub struct IdNode {
    id: String,
}

/// A number literal.
pub struct NumericNode {
    value: u64,
}

/// A value written in source.
pub enum ValueNode {
    Str(StringNode),
    Id(IdNode),
    Num(NumericNode),
}

/// A `print` statement.
pub struct PrintNode {
    out: Option<ValueNode>,
}

/// A `var` or `const` declaration.
pub struct VariableNode {
    constant: bool,
    id: String,
    var_type: String,
    val: Option<ValueNode>,
}

/// A statement of a function body.
pub enum Statement {
    Print(PrintNode),
    Variable(VariableNode),
}

/// A function and its body.
pub struct FunctionNode {
    children: Vec<Statement>,
    identifier: String,
}

/// A Silicon file: its `main` functions.
pub struct FileNode {
    main_functions: Vec<FunctionNode>,
}

impl StringNode {
    pub closed spec fn view(&self) -> Seq<char> {
        self.the_str@
    }

    pub fn new(the_str: String) -> (r: StringNode)
        ensures
            r@ == the_str@,
    {
        StringNode { the_str }
    }
}

impl IdNode {
    pub closed spec fn view(&self) -> Seq<char> {
        self.id@
    }

    pub fn new(the_id: String) -> (r: IdNode)
        ensures
            r@ == the_id@,
    {
        IdNode { id: the_id }
    }
}

impl NumericNode {
    pub closed spec fn view(&self) -> u64 {
        self.value
    }

    pub fn new(val: u64) -> (r: NumericNode)
        ensures
            r@ == val,
    {
        NumericNode { value: val }
    }
}

impl ValueNode {
    pub open spec fn view(&self) -> NodeValue {
        match self {
            ValueNode::Str(n) => NodeValue::Str(n@),
            ValueNode::Id(n) => NodeValue::Id(n@),
            ValueNode::Num(n) => NodeValue::Num(n@),
        }
    }

    /// Reads a value token.
    pub fn parse(stream: &mut TokenStream) -> (r: Result<ValueNode, ParseError>)
        ensures
            final(stream).tokens_spec() == old(stream).tokens_spec(),
            match value_at(old(stream).tokens_spec(), old(stream).position()) {
                Ok(v) => r is Ok && r->Ok_0@ == v && final(stream).position() == old(stream).position() + 1,
                Err(e) => r == Err::<ValueNode, ParseError>(e),
            },
    {
        match stream.next() {
            Some(token) => match token {
                Token::Str(a_string) => Ok(ValueNode::Str(StringNode::new(a_string))),
                Token::Word(a_word) => Ok(ValueNode::Id(IdNode::new(a_word))),
                Token::Num(a_num) => match parse_u64(a_num.as_str()) {
                    Some(n) => Ok(ValueNode::Num(NumericNode::new(n))),
                    None => Err(ParseError::InvalidNumber),
                },
                _ => Err(ParseError::UnexpectedToken),
            },
            None => Err(ParseError::UnexpectedEof),
        }
    }
}

impl PrintNode {
    pub closed spec fn view(&self) -> Option<NodeValue> {
        match self.out {
            Some(v) => Some(v@),
            None => None,
        }
    }

    pub fn new() -> (r: PrintNode)
        ensures
            r@ is None,
    {
        PrintNode { out: None }
    }

    /// Reads the printed value.
    pub fn parse(&mut self, stream: &mut TokenStream) -> (r: Result<(), ParseError>)
        ensures
            final(stream).tokens_spec() == old(stream).tokens_spec(),
            match value_at(old(stream).tokens_spec(), old(stream).position()) {
                Ok(v) => r is Ok && final(self)@ == Some(v) && final(stream).position() == old(stream).position() + 1,
                Err(e) => r == Err::<(), ParseError>(e),
            },
    {
        let v = ValueNode::parse(stream)?;
        self.out = Some(v);
        Ok(())
    }
}

fn expect_word(stream: &mut TokenStream) -> (r: Result<String, ParseError>)
    ensures
        final(stream).tokens_spec() == old(stream).tokens_spec(),
        match word_at(old(stream).tokens_spec(), old(stream).position()) {
            Ok(w) => r is Ok && r->Ok_0@ == w && final(stream).position() == old(stream).position() + 1,
            Err(e) => r == Err::<String, ParseError>(e),
        },
{
    match stream.next() {
        Some(Token::Word(w)) => Ok(w),
        Some(_) => Err(ParseError::UnexpectedToken),
        None => Err(ParseError::UnexpectedEof),
    }
}

impl VariableNode {
    pub closed spec fn view(&self) -> VarView {
        VarView {
            constant: self.constant,
            id: self.id@,
            var_type: self.var_type@,
            val: match self.val {
                Some(v) => Some(v@),
                None => None,
            },
        }
    }

    /// A variable declaration, not yet read.
    pub fn new_var() -> (r: VariableNode)
        ensures
            !r@.constant && r@.id.len() == 0 && r@.var_type.len() == 0 && r@.val is None,
    {
        VariableNode { constant: false, id: String::new(), var_type: String::new(), val: None }
    }

    /// A constant declaration, not yet read.
    pub fn new_const() -> (r: VariableNode)
        ensures
            r@.constant && r@.id.len() == 0 && r@.var_type.len() == 0 && r@.val is None,
    {
        VariableNode { constant: true, id: String::new(), var_type: String::new(), val: None }
    }

    /// Reads `id : type = value`.
    pub fn parse(&mut self, stream: &mut TokenStream) -> (r: Result<(), ParseError>)
        ensures
            final(stream).tokens_spec() == old(stream).tokens_spec(),
            match declaration_at(old(stream).tokens_spec(), old(stream).position()) {
                Ok(d) => r is Ok && final(self)@ == (VarView { constant: old(self)@.constant, ..d })
                    && final(stream).position() == old(stream).position() + 5,
                Err(e) => r == Err::<(), ParseError>(e),
            },
    {
        let id = expect_word(stream)?;
        match stream.next() {
            Some(Token::Colin) => {},
            Some(_) => return Err(ParseError::UnexpectedToken),
            None => return Err(ParseError::UnexpectedEof),
        }
        let var_type = expect_word(stream)?;
        match stream.next() {
            Some(Token::Assign) => {},
            Some(_) => return Err(ParseError::UnexpectedToken),
            None => return Err(ParseError::UnexpectedEof),
        }
        let v = ValueNode::parse(stream)?;
        self.id = id;
        self.var_type = var_type;
        self.val = Some(v);
        Ok(())
    }
}

impl Statement {
    pub open spec fn view(&self) -> StmtView {
        match self {
            Statement::Print(p) => StmtView::Print(p@),
            Statement::Variable(v) => StmtView::Var(v@),
        }
    }
}

impl FunctionNode {
    pub closed spec fn view(&self) -> FunctionView {
        FunctionView { identifier: self.identifier@, children: self.children@.map_values(|c: Statement| c@) }
    }

    /// A nameless function with no statements.
    pub fn new() -> (r: FunctionNode)
        ensures
            r@.identifier.len() == 0 && r@.children.len() == 0,
    {
        let r = FunctionNode { children: Vec::new(), identifier: String::new() };
        proof {
            assert(r@.children =~= Seq::<StmtView>::empty());
        }
        r
    }

    /// The `main` function, with no statements.
    pub fn new_main() -> (r: FunctionNode)
        ensures
            r@.identifier == "<main>"@ && r@.children.len() == 0,
    {
        let r = FunctionNode { children: Vec::new(), identifier: "<main>".to_string() };
        proof {
            assert(r@.children =~= Seq::<StmtView>::empty());
        }
        r
    }

    /// Reads newlines up to `{`, then statements up to `}`.
    pub fn parse(&mut self, stream: &mut TokenStream) -> (r: Result<(), ParseError>)
        ensures
            final(stream).tokens_spec() == old(stream).tokens_spec(),
            final(self)@.identifier == old(self)@.identifier,
            match function_from(old(stream).tokens_spec(), old(stream).position(), false, old(self)@.children) {
                Ok((children, end)) => r is Ok && final(self)@.children == children && final(stream).position() == end,
                Err(e) => r == Err::<(), ParseError>(e),
            },
    {
        let ghost ts = stream.tokens_spec();
        let ghost goal = function_from(ts, stream.position(), false, self@.children);
        loop
            invariant_except_break
                goal == function_from(ts, stream.position(), false, self@.children),
            invariant
                stream.tokens_spec() == ts,
                ts == old(stream).tokens_spec(),
                goal == function_from(ts, old(stream).position(), false, old(self)@.children),
                self@.identifier == old(self)@.identifier,
                0 <= stream.position(),
            ensures
                goal == function_from(ts, stream.position(), true, self@.children),
            decreases ts.len() - stream.position(),
        {
            match stream.next() {
                Some(token) => match token {
                    Token::Newline => {},
                    Token::BlockIn => break,
                    _ => return Err(ParseError::UnexpectedToken),
                },
                None => return Err(ParseError::UnexpectedEof),
            }
        }
        loop
            invariant
                stream.tokens_spec() == ts,
                ts == old(stream).tokens_spec(),
                goal == function_from(ts, old(stream).position(), false, old(self)@.children),
                self@.identifier == old(self)@.identifier,
                0 <= stream.position(),
                goal == function_from(ts, stream.position(), true, self@.children),
            decreases ts.len() - stream.position(),
        {
            let ghost pos = stream.position();
            let ghost before = self@.children;
            match stream.next() {
                Some(token) => match token {
                    Token::BlockOut => return Ok(()),
                    Token::Newline => {},
                    Token::Print => {
                        let mut print_node = PrintNode::new();
                        print_node.parse(stream)?;
                        self.children.push(Statement::Print(print_node));
                        proof {
                            assert(self@.children =~= before.push(StmtView::Print(print_node@)));
                        }
                    },
                    Token::Var => {
                        let mut var_node = VariableNode::new_var();
                        var_node.parse(stream)?;
                        self.children.push(Statement::Variable(var_node));
                        proof {
                            assert(self@.children =~= before.push(StmtView::Var(var_node@)));
                        }
                    },
                    _ => return Err(ParseError::UnexpectedToken),
                },
                None => return Err(ParseError::UnexpectedEof),
            }
        }
    }
}

impl FileNode {
    pub closed spec fn view(&self) -> Seq<FunctionView> {
        self.main_functions@.map_values(|f: FunctionNode| f@)
    }

    /// A file with no functions.
    pub fn new() -> (r: FileNode)
        ensures
            r@.len() == 0,
    {
        let r = FileNode { main_functions: Vec::new() };
        proof {
            assert(r@ =~= Seq::<FunctionView>::empty());
        }
        r
    }

    /// Reads newlines and `main` functions up to the end of the stream.
    pub fn parse(&mut self, stream: &mut TokenStream) -> (r: Result<(), ParseError>)
        ensures
            match file_from(old(stream).tokens_spec(), old(stream).position(), old(self)@) {
                Ok(mains) => r is Ok && final(self)@ == mains,
                Err(e) => r == Err::<(), ParseError>(e),
            },
    {
        let ghost ts = stream.tokens_spec();
        let ghost goal = file_from(ts, stream.position(), self@);
        loop
            invariant
                stream.tokens_spec() == ts,
                ts == old(stream).tokens_spec(),
                goal == file_from(ts, old(stream).position(), old(self)@),
                0 <= stream.position(),
                goal == file_from(ts, stream.position(), self@),
            decreases ts.len() - stream.position(),
        {
            let ghost pos = stream.position();
            let ghost before = self@;
            match stream.next() {
                Some(token) => match token {
                    Token::Main => {
                        let mut main_func = FunctionNode::new_main();
                        proof {
                            assert(main_func@.children =~= Seq::<StmtView>::empty());
                        }
                        main_func.parse(stream)?;
                        proof {
                            lemma_function_advances(ts, pos + 1, false, Seq::empty());
                        }
                        self.main_functions.push(main_func);
                        proof {
                            assert(self@ =~= before.push(main_func@));
                        }
                    },
                    Token::Newline => {},
                    _ => return Err(ParseError::UnexpectedToken),
                },
                None => return Ok(()),
            }
        }
    }

    /// The `main` functions, in source order.
    pub fn main_functions(&self) -> (r: &Vec<FunctionNode>)
        ensures
            r@.map_values(|f: FunctionNode| f@) == self@,
    {
        &self.main_functions
    }
}

impl FunctionNode {
    /// The statements, in source order.
    pub fn children(&self) -> (r: &Vec<Statement>)
        ensures
            r@.map_values(|c: Statement| c@) == self@.children,
    {
        &self.children
    }
}

/// Parses a whole file from its tokens.
pub fn build(tokens: Vec<Token>) -> (r: Result<FileNode, ParseError>)
    ensures
        match file_from(tokens@.map_values(|t: Token| t@), 0, Seq::empty()) {
            Ok(mains) => r is Ok && r->Ok_0@ == mains,
            Err(e) => r == Err::<FileNode, ParseError>(e),
        },
{
    let mut token_stream = TokenStream::new(tokens);
    let mut file_node = FileNode::new();
    proof {
        assert(file_node@ =~= Seq::<FunctionView>::empty());
    }
    file_node.parse(&mut token_stream)?;
    Ok(file_node)
}

impl Node for FileNode {
    fn is_operation(&self) -> (r: bool) {
        false
    }
}

impl Node for FunctionNode {
    fn is_operation(&self) -> (r: bool) {
        false
    }
}

impl Node for VariableNode {
    fn is_operation(&self) -> (r: bool) {
        false
    }
}

impl Node for StringNode {
    fn is_operation(&self) -> (r: bool) {
        false
    }
}

impl Node for IdNode {
    fn is_operation(&self) -> (r: bool) {
        false
    }
}

impl Node for NumericNode {
    fn is_operation(&self) -> (r: bool) {
        false
    }
}

impl Node for PrintNode {
    fn is_operation(&self) -> (r: bool) {
        false
    }
}


/// Why running a parsed file stopped.
#[derive(Clone, Copy, Debug, PartialEq, Eq, Structural)]
pub enum RunError {
    /// A name used before any declaration of it.
    Undefined,
    /// A statement that was never given its value.
    MissingValue,
    /// A file without a `main` function.
    NoMain,
    /// An operation on values it does not apply to.
    NotANumber,
    /// A sum that does not fit in a `u64`.
    Overflow,
}

/// A name bound to a value.
pub struct Binding {
    name: String,
    value: Type,
}

/// The variables in scope, the latest declaration of a name shadowing
/// earlier ones.
pub struct Environment {
    bindings: Vec<Binding>,
}

/// The value most recently bound to `name`.
pub open spec fn lookup_spec(env: Seq<(Seq<char>, Val)>, name: Seq<char>) -> Option<Val>
    decreases env.len(),
{
    if env.len() == 0 {
        None
    } else if env.last().0 == name {
        Some(env.last().1)
    } else {
        lookup_spec(env.drop_last(), name)
    }
}

/// The value a source value stands for.
pub open spec fn eval_spec(env: Seq<(Seq<char>, Val)>, v: NodeValue) -> Result<Val, RunError> {
    match v {
        NodeValue::Str(s) => Ok(Val::Text(s)),
        NodeValue::Num(n) => Ok(Val::Num(n)),
        NodeValue::Id(x) => match lookup_spec(env, x) {
            Some(val) => Ok(val),
            None => Err(RunError::Undefined),
        },
    }
}

/// The printed text of a value.
pub open spec fn text_of(v: Val) -> Seq<char> {
    match v {
        Val::Text(s) => s,
        Val::Num(n) => int_text(n as int),
    }
}

/// Running one statement: the environment and output afterwards.
pub open spec fn step_spec(env: Seq<(Seq<char>, Val)>, out: Seq<Seq<char>>, st: StmtView) -> Result<(Seq<(Seq<char>, Val)>, Seq<Seq<char>>), RunError> {
    match st {
        StmtView::Print(None) => Err(RunError::MissingValue),
        StmtView::Print(Some(v)) => match eval_spec(env, v) {
            Ok(val) => Ok((env, out.push(text_of(val)))),
            Err(e) => Err(e),
        },
        StmtView::Var(d) => match d.val {
            None => Err(RunError::MissingValue),
            Some(v) => match eval_spec(env, v) {
                Ok(val) => Ok((env.push((d.id, val)), out)),
                Err(e) => Err(e),
            },
        },
    }
}

/// Running statements `i..` in order.
pub open spec fn run_spec(env: Seq<(Seq<char>, Val)>, out: Seq<Seq<char>>, stmts: Seq<StmtView>, i: int) -> Result<(Seq<(Seq<char>, Val)>, Seq<Seq<char>>), RunError>
    decreases stmts.len() - i,
{
    if i < 0 || i >= stmts.len() {
        Ok((env, out))
    } else {
        match step_spec(env, out, stmts[i]) {
            Ok((e2, o2)) => run_spec(e2, o2, stmts, i + 1),
            Err(e) => Err(e),
        }
    }
}

impl Environment {
    pub closed spec fn view(&self) -> Seq<(Seq<char>, Val)> {
        self.bindings@.map_values(|b: Binding| (b.name@, b.value@))
    }

    /// No variables.
    pub fn new() -> (r: Environment)
        ensures
            r@ == Seq::<(Seq<char>, Val)>::empty(),
    {
        let r = Environment { bindings: Vec::new() };
        proof {
            assert(r@ =~= Seq::<(Seq<char>, Val)>::empty());
        }
        r
    }

    /// The value most recently bound to `name`.
    pub fn lookup(&self, name: &String) -> (r: Option<Type>)
        ensures
            match lookup_spec(self@, name@) {
                Some(v) => r is Some && r->0@ == v,
                None => r is None,
            },
    {
        let mut i: usize = self.bindings.len();
        proof {
            assert(self@.subrange(0, i as int) =~= self@);
        }
        while i > 0
            invariant
                i <= self.bindings@.len(),
                lookup_spec(self@, name@) == lookup_spec(self@.subrange(0, i as int), name@),
            decreases i,
        {
            let ghost prefix = self@.subrange(0, i as int);
            proof {
                assert(prefix.drop_last() =~= self@.subrange(0, i - 1));
            }
            if self.bindings[i - 1].name.eq(name) {
                return Some(self.bindings[i - 1].value.duplicate());
            }
            i = i - 1;
        }
        None
    }

    /// Binds `name` to `value`, shadowing any earlier binding.
    pub fn insert(&mut self, name: String, value: Type)
        ensures
            final(self)@ == old(self)@.push((name@, value@)),
    {
        let ghost before = self@;
        let ghost added = (name@, value@);
        self.bindings.push(Binding { name, value });
        proof {
            assert(self@ =~= before.push(added));
        }
    }
}

fn text_value(v: &Type) -> (r: String)
    ensures
        r@ == text_of(v@),
{
    match v {
        Type::String(s) => s.clone(),
        Type::Num(n) => {
            let mut out = String::new();
            push_unsigned(&mut out, *n as u128);
            proof {
                assert(out@ =~= int_text(*n as int));
            }
            out
        },
    }
}

impl ValueNode {
    /// The value this node stands for.
    pub fn run(&self, env: &Environment) -> (r: Result<Type, RunError>)
        ensures
            match eval_spec(env@, self@) {
                Ok(v) => r is Ok && r->Ok_0@ == v,
                Err(e) => r == Err::<Type, RunError>(e),
            },
    {
        match self {
            ValueNode::Str(n) => Ok(Type::String(n.the_str.clone())),
            ValueNode::Num(n) => Ok(Type::Num(n.value)),
            ValueNode::Id(n) => match env.lookup(&n.id) {
                Some(v) => Ok(v),
                None => Err(RunError::Undefined),
            },
        }
    }
}

impl Statement {
    /// Runs the statement: a declaration binds its name, a `print` appends
    /// the text of its value to `out`.
    pub fn run(&self, env: &mut Environment, out: &mut Vec<String>) -> (r: Result<(), RunError>)
        ensures
            match step_spec(old(env)@, old(out)@.map_values(|s: String| s@), self@) {
                Ok((e2, o2)) => r is Ok && final(env)@ == e2 && final(out)@.map_values(|s: String| s@) == o2,
                Err(e) => r == Err::<(), RunError>(e),
            },
    {
        match self {
            Statement::Print(p) => p.run(env, out),
            Statement::Variable(v) => v.run(env),
        }
    }
}

impl PrintNode {
    /// Appends the text of the printed value to `out`.
    pub fn run(&self, env: &Environment, out: &mut Vec<String>) -> (r: Result<(), RunError>)
        ensures
            match step_spec(env@, old(out)@.map_values(|s: String| s@), StmtView::Print(self@)) {
                Ok((e2, o2)) => r is Ok && final(out)@.map_values(|s: String| s@) == o2,
                Err(e) => r == Err::<(), RunError>(e),
            },
    {
        match &self.out {
            Some(node) => {
                let v = node.run(env)?;
                let text = text_value(&v);
                let ghost before = out@;
                out.push(text);
                proof {
                    assert(out@.map_values(|s: String| s@) =~= before.map_values(|s: String| s@).push(text@));
                }
                Ok(())
            },
            None => Err(RunError::MissingValue),
        }
    }
}

impl VariableNode {
    /// Binds the declared name to its value.
    pub fn run(&self, env: &mut Environment) -> (r: Result<(), RunError>)
        ensures
            match step_spec(old(env)@, Seq::empty(), StmtView::Var(self@)) {
                Ok((e2, _)) => r is Ok && final(env)@ == e2,
                Err(e) => r == Err::<(), RunError>(e),
            },
    {
        match &self.val {
            Some(node) => {
                let v = node.run(env)?;
                env.insert(self.id.clone(), v);
                Ok(())
            },
            None => Err(RunError::MissingValue),
        }
    }
}

impl FunctionNode {
    /// Runs the statements in order.
    pub fn run(&self, env: &mut Environment, out: &mut Vec<String>) -> (r: Result<(), RunError>)
        ensures
            match run_spec(old(env)@, old(out)@.map_values(|s: String| s@), self@.children, 0) {
                Ok((e2, o2)) => r is Ok && final(env)@ == e2 && final(out)@.map_values(|s: String| s@) == o2,
                Err(e) => r == Err::<(), RunError>(e),
            },
    {
        let ghost goal = run_spec(env@, out@.map_values(|s: String| s@), self@.children, 0);
        let mut i: usize = 0;
        while i < self.children.len()
            invariant
                i <= self.children@.len(),
                goal == run_spec(old(env)@, old(out)@.map_values(|s: String| s@), self@.children, 0),
                goal == run_spec(env@, out@.map_values(|s: String| s@), self@.children, i as int),
            decreases self.children@.len() - i,
        {
            self.children[i].run(env, out)?;
            i = i + 1;
        }
        Ok(())
    }
}

impl FileNode {
    /// Runs the first `main` function.
    pub fn run(&self, env: &mut Environment, out: &mut Vec<String>) -> (r: Result<(), RunError>)
        ensures
            self@.len() == 0 ==> r == Err::<(), RunError>(RunError::NoMain),
            self@.len() > 0 ==> match run_spec(old(env)@, old(out)@.map_values(|s: String| s@), self@[0].children, 0) {
                Ok((e2, o2)) => r is Ok && final(env)@ == e2 && final(out)@.map_values(|s: String| s@) == o2,
                Err(e) => r == Err::<(), RunError>(e),
            },
    {
        if self.main_functions.len() == 0 {
            return Err(RunError::NoMain);
        }
        self.main_functions[0].run(env, out)
    }
}

/// The arithmetic operations of expressions.
#[derive(Clone, Copy, Debug, PartialEq, Eq, Structural)]
pub enum Operation {
    Addition,
}

/// `op` applied to two values: only numbers add, and the sum must fit.
pub open spec fn operate_spec(op: Operation, left: Val, right: Val) -> Result<Val, RunError> {
    match (left, right) {
        (Val::Num(a), Val::Num(b)) => if a + b <= u64::MAX {
            Ok(Val::Num((a + b) as u64))
        } else {
            Err(RunError::Overflow)
        },
        _ => Err(RunError::NotANumber),
    }
}

impl Operation {
    /// Applies the operation.
    pub fn operate(self, left: Type, right: Type) -> (r: Result<Type, RunError>)
        ensures
            match operate_spec(self, left@, right@) {
                Ok(v) => r is Ok && r->Ok_0@ == v,
                Err(e) => r == Err::<Type, RunError>(e),
            },
    {
        match (left, right) {
            (Type::Num(a), Type::Num(b)) => match a.checked_add(b) {
                Some(n) => Ok(Type::Num(n)),
                None => Err(RunError::Overflow),
            },
            _ => Err(RunError::NotANumber),
        }
    }
}

/// A binary operation of an expression, with its operands once read.
pub struct OperationNode {
    left: Option<ValueNode>,
    right: Option<ValueNode>,
    op: Operation,
}

impl OperationNode {
    pub closed spec fn operation(&self) -> Operation {
        self.op
    }

    pub closed spec fn has_operands(&self) -> bool {
        self.left is Some || self.right is Some
    }

    /// An operation with no operands yet.
    pub fn new(operation: Operation) -> (r: OperationNode)
        ensures
            r.operation() == operation,
            !r.has_operands(),
    {
        OperationNode { left: None, right: None, op: operation }
    }
}

impl Node for OperationNode {
    fn is_operation(&self) -> (r: bool) {
        true
    }
}

} // verus!
