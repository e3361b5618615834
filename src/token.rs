use vstd::prelude::*;

verus! {

/// A token of Silicon source text.
pub enum Token {
    Main,
    Var,
    Const,
    New,
    Class,
    Ctor,
    Func,
    Print,
    Return,
    BlockIn,
    BlockOut,
    ParenIn,
    ParenOut,
    Period,
    Comma,
    Colin,
    ReturnType,
    Assign,
    Newline,
    Str(String),
    Word(String),
    Num(String),
    Hex(String),
    Plus,
    Increment,
    PlusAssign,
    Equality,
    IdEquality,
}

/// What a `Token` holds, as plain values.
pub enum TokenView {
    Main,
    Var,
    Const,
    New,
    Class,
    Ctor,
    Func,
    Print,
    Return,
    BlockIn,
    BlockOut,
    ParenIn,
    ParenOut,
    Period,
    Comma,
    Colin,
    ReturnType,
    Assign,
    Newline,
    Str(Seq<char>),
    Word(Seq<char>),
    Num(Seq<char>),
    Hex(Seq<char>),
    Plus,
    Increment,
    PlusAssign,
    Equality,
    IdEquality,
}

impl Token {
    pub open spec fn view(&self) -> TokenView {
        match self {
            Token::Main => TokenView::Main,
            Token::Var => TokenView::Var,
            Token::Const => TokenView::Const,
            Token::New => TokenView::New,
            Token::Class => TokenView::Class,
            Token::Ctor => TokenView::Ctor,
            Token::Func => TokenView::Func,
            Token::Print => TokenView::Print,
            Token::Return => TokenView::Return,
            Token::BlockIn => TokenView::BlockIn,
            Token::BlockOut => TokenView::BlockOut,
            Token::ParenIn => TokenView::ParenIn,
            Token::ParenOut => TokenView::ParenOut,
            Token::Period => TokenView::Period,
            Token::Comma => TokenView::Comma,
            Token::Colin => TokenView::Colin,
            Token::ReturnType => TokenView::ReturnType,
            Token::Assign => TokenView::Assign,
            Token::Newline => TokenView::Newline,
            Token::Plus => TokenView::Plus,
            Token::Increment => TokenView::Increment,
            Token::PlusAssign => TokenView::PlusAssign,
            Token::Equality => TokenView::Equality,
            Token::IdEquality => TokenView::IdEquality,
            Token::Str(s) => TokenView::Str(s@),
            Token::Word(s) => TokenView::Word(s@),
            Token::Num(s) => TokenView::Num(s@),
            Token::Hex(s) => TokenView::Hex(s@),
        }
    }

    /// A second, independent copy of this token.
    pub fn duplicate(&self) -> (r: Token)
        ensures
            r@ == self@,
    {
        match self {
            Token::Main => Token::Main,
            Token::Var => Token::Var,
            Token::Const => Token::Const,
            Token::New => Token::New,
            Token::Class => Token::Class,
            Token::Ctor => Token::Ctor,
            Token::Func => Token::Func,
            Token::Print => Token::Print,
            Token::Return => Token::Return,
            Token::BlockIn => Token::BlockIn,
            Token::BlockOut => Token::BlockOut,
            Token::ParenIn => Token::ParenIn,
            Token::ParenOut => Token::ParenOut,
            Token::Period => Token::Period,
            Token::Comma => Token::Comma,
            Token::Colin => Token::Colin,
            Token::ReturnType => Token::ReturnType,
            Token::Assign => Token::Assign,
            Token::Newline => Token::Newline,
            Token::Plus => Token::Plus,
            Token::Increment => Token::Increment,
            Token::PlusAssign => Token::PlusAssign,
            Token::Equality => Token::Equality,
            Token::IdEquality => Token::IdEquality,
            Token::Str(s) => Token::Str(s.clone()),
            Token::Word(s) => Token::Word(s.clone()),
            Token::Num(s) => Token::Num(s.clone()),
            Token::Hex(s) => Token::Hex(s.clone()),
        }
    }
}


/// Why a lexeme is not a token.
#[derive(Clone, Copy, Debug, PartialEq, Eq, Structural)]
pub enum LexError {
    UnknownToken,
}

/// The token that a keyword, bracket, operator or separator lexeme stands
/// for (`Some(None)` for a space, which stands for nothing).
pub open spec fn fixed_token(s: Seq<char>) -> Option<Option<TokenView>> {
    if s == "main "@ {
        Some(Some(TokenView::Main))
    } else if s == "var "@ {
        Some(Some(TokenView::Var))
    } else if s == "const "@ {
        Some(Some(TokenView::Const))
    } else if s == "new "@ {
        Some(Some(TokenView::New))
    } else if s == "class "@ {
        Some(Some(TokenView::Class))
    } else if s == "constructor "@ {
        Some(Some(TokenView::Ctor))
    } else if s == "func "@ {
        Some(Some(TokenView::Func))
    } else if s == "print "@ {
        Some(Some(TokenView::Print))
    } else if s == "return "@ {
        Some(Some(TokenView::Return))
    } else if s == "{"@ {
        Some(Some(TokenView::BlockIn))
    } else if s == "}"@ {
        Some(Some(TokenView::BlockOut))
    } else if s == "("@ {
        Some(Some(TokenView::ParenIn))
    } else if s == ")"@ {
        Some(Some(TokenView::ParenOut))
    } else if s == "="@ {
        Some(Some(TokenView::Assign))
    } else if s == "."@ {
        Some(Some(TokenView::Period))
    } else if s == ","@ {
        Some(Some(TokenView::Comma))
    } else if s == ":"@ {
        Some(Some(TokenView::Colin))
    } else if s == "->"@ {
        Some(Some(TokenView::ReturnType))
    } else if s == "\n"@ {
        Some(Some(TokenView::Newline))
    } else if s == "\r\n"@ {
        Some(Some(TokenView::Newline))
    } else if s == "+"@ {
        Some(Some(TokenView::Plus))
    } else if s == "++"@ {
        Some(Some(TokenView::Increment))
    } else if s == "+="@ {
        Some(Some(TokenView::PlusAssign))
    } else if s == "=="@ {
        Some(Some(TokenView::Equality))
    } else if s == "==="@ {
        Some(Some(TokenView::IdEquality))
    } else if s == " "@ {
        Some(None)
    } else {
        None
    }
}

pub open spec fn is_ascii_alphabetic(c: char) -> bool {
    ('a' <= c && c <= 'z') || ('A' <= c && c <= 'Z')
}

pub open spec fn is_ascii_digit(c: char) -> bool {
    '0' <= c && c <= '9'
}

/// `s` without its leading `c`s.
pub open spec fn trim_start(s: Seq<char>, c: char) -> Seq<char>
    decreases s.len(),
{
    if s.len() > 0 && s[0] == c {
        trim_start(s.drop_first(), c)
    } else {
        s
    }
}

/// `s` without its trailing `c`s.
pub open spec fn trim_end(s: Seq<char>, c: char) -> Seq<char>
    decreases s.len(),
{
    if s.len() > 0 && s.last() == c {
        trim_end(s.drop_last(), c)
    } else {
        s
    }
}

/// Whether `s` begins with `p`.
pub open spec fn starts_with(s: Seq<char>, p: Seq<char>) -> bool {
    p.len() <= s.len() && s.subrange(0, p.len() as int) == p
}

/// The token a lexeme stands for: a fixed lexeme, a quoted string (quotes
/// trimmed), a comment (nothing), a hex literal, a word or a number.
pub open spec fn from_lexer_spec(s: Seq<char>) -> Result<Option<TokenView>, LexError> {
    match fixed_token(s) {
        Some(t) => Ok(t),
        None => if s.len() > 0 && s[0] == '"' {
            Ok(Some(TokenView::Str(trim_end(trim_start(s, '"'), '"'))))
        } else if s.len() > 0 && s[0] == '#' {
            Ok(None)
        } else if starts_with(s, "0x"@) {
            Ok(Some(TokenView::Hex(s)))
        } else if s.len() > 0 && is_ascii_alphabetic(s[0]) {
            Ok(Some(TokenView::Word(s)))
        } else if s.len() > 0 && is_ascii_digit(s[0]) {
            Ok(Some(TokenView::Num(s)))
        } else {
            Err(LexError::UnknownToken)
        },
    }
}

/// The source text of a token.
pub open spec fn token_text(t: TokenView) -> Seq<char> {
    match t {
        TokenView::Main => "main"@,
        TokenView::Var => "var"@,
        TokenView::Const => "const"@,
        TokenView::New => "new"@,
        TokenView::Class => "class"@,
        TokenView::Ctor => "constructor"@,
        TokenView::Func => "func"@,
        TokenView::Print => "print"@,
        TokenView::Return => "return"@,
        TokenView::BlockIn => "{"@,
        TokenView::BlockOut => "}"@,
        TokenView::ParenIn => "("@,
        TokenView::ParenOut => ")"@,
        TokenView::Assign => "="@,
        TokenView::Period => "."@,
        TokenView::Comma => ","@,
        TokenView::Colin => ":"@,
        TokenView::ReturnType => "->"@,
        TokenView::Newline => "\n"@,
        TokenView::Plus => "+"@,
        TokenView::Increment => "++"@,
        TokenView::PlusAssign => "+="@,
        TokenView::Equality => "=="@,
        TokenView::IdEquality => "==="@,
        TokenView::Str(s) => "\""@ + s + "\""@,
        TokenView::Word(s) => s,
        TokenView::Num(s) => s,
        TokenView::Hex(s) => s,
    }
}

fn text_eq(a: &str, b: &str) -> (r: bool)
    ensures
        r == (a@ == b@),
{
    let n = a.unicode_len();
    if n != b.unicode_len() {
        return false;
    }
    let mut i: usize = 0;
    while i < n
        invariant
            n == a@.len(),
            n == b@.len(),
            i <= n,
            forall|k: int| 0 <= k < i ==> a@[k] == b@[k],
        decreases n - i,
    {
        if a.get_char(i) != b.get_char(i) {
            return false;
        }
        i = i + 1;
    }
    proof {
        assert(a@ =~= b@);
    }
    true
}

proof fn lemma_trim_start(s: Seq<char>, c: char, i: int)
    requires
        0 <= i <= s.len(),
        forall|k: int| 0 <= k < i ==> s[k] == c,
    ensures
        trim_start(s, c) == trim_start(s.subrange(i, s.len() as int), c),
    decreases i,
{
    if i > 0 {
        assert(s.drop_first().subrange(i - 1, s.drop_first().len() as int) =~= s.subrange(i, s.len() as int));
        lemma_trim_start(s.drop_first(), c, i - 1);
    } else {
        assert(s.subrange(0, s.len() as int) =~= s);
    }
}

proof fn lemma_trim_end(s: Seq<char>, c: char, j: int)
    requires
        0 <= j <= s.len(),
        forall|k: int| j <= k < s.len() ==> s[k] == c,
    ensures
        trim_end(s, c) == trim_end(s.subrange(0, j), c),
    decreases s.len() - j,
{
    if j < s.len() {
        assert(s.drop_last().subrange(0, j) =~= s.subrange(0, j));
        lemma_trim_end(s.drop_last(), c, j);
    } else {
        assert(s.subrange(0, j) =~= s);
    }
}

/// The quoted string `lex` without its leading and trailing quotes.
fn unquote(lex: &str) -> (r: String)
    ensures
        r@ == trim_end(trim_start(lex@, '"'), '"'),
{
    let n = lex.unicode_len();
    let mut i: usize = 0;
    while i < n && lex.get_char(i) == '"'
        invariant
            n == lex@.len(),
            i <= n,
            forall|k: int| 0 <= k < i ==> lex@[k] == '"',
        decreases n - i,
    {
        i = i + 1;
    }
    proof {
        lemma_trim_start(lex@, '"', i as int);
    }
    let ghost rest = lex@.subrange(i as int, n as int);
    let mut j: usize = n;
    while j > i && lex.get_char(j - 1) == '"'
        invariant
            n == lex@.len(),
            i <= j <= n,
            forall|k: int| j <= k < n ==> lex@[k] == '"',
        decreases j,
    {
        j = j - 1;
    }
    proof {
        assert(rest.len() == n - i);
        assert(forall|k: int| j - i <= k < rest.len() ==> rest[k] == lex@[k + i]);
        lemma_trim_end(rest, '"', j - i);
        assert(rest.subrange(0, j - i) =~= lex@.subrange(i as int, j as int));
        if i < n {
            assert(lex@[i as int] != '"');
            assert(rest[0] == lex@[i as int]);
        }
        assert(trim_start(rest, '"') == rest);
    }
    lex.substring_char(i, j).to_string()
}

impl Token {
    /// The token that lexeme `lex` stands for; `None` for a space or a comment.
    pub fn from_lexer(lex: &str) -> (r: Result<Option<Token>, LexError>)
        ensures
            match from_lexer_spec(lex@) {
                Ok(Some(t)) => r is Ok && r->Ok_0 is Some && r->Ok_0->0@ == t,
                Ok(None) => r == Ok::<Option<Token>, LexError>(None),
                Err(e) => r == Err::<Option<Token>, LexError>(e),
            },
    {
    if text_eq(lex, "main ") {
        return Ok(Some(Token::Main));
    }
    if text_eq(lex, "var ") {
        return Ok(Some(Token::Var));
    }
    if text_eq(lex, "const ") {
        return Ok(Some(Token::Const));
    }
    if text_eq(lex, "new ") {
        return Ok(Some(Token::New));
    }
    if text_eq(lex, "class ") {
        return Ok(Some(Token::Class));
    }
    if text_eq(lex, "constructor ") {
        return Ok(Some(Token::Ctor));
    }
    if text_eq(lex, "func ") {
        return Ok(Some(Token::Func));
    }
    if text_eq(lex, "print ") {
        return Ok(Some(Token::Print));
    }
    if text_eq(lex, "return ") {
        return Ok(Some(Token::Return));
    }
    if text_eq(lex, "{") {
        return Ok(Some(Token::BlockIn));
    }
    if text_eq(lex, "}") {
        return Ok(Some(Token::BlockOut));
    }
    if text_eq(lex, "(") {
        return Ok(Some(Token::ParenIn));
    }
    if text_eq(lex, ")") {
        return Ok(Some(Token::ParenOut));
    }
    if text_eq(lex, "=") {
        return Ok(Some(Token::Assign));
    }
    if text_eq(lex, ".") {
        return Ok(Some(Token::Period));
    }
    if text_eq(lex, ",") {
        return Ok(Some(Token::Comma));
    }
    if text_eq(lex, ":") {
        return Ok(Some(Token::Colin));
    }
    if text_eq(lex, "->") {
        return Ok(Some(Token::ReturnType));
    }
    if text_eq(lex, "\n") {
        return Ok(Some(Token::Newline));
    }
    if text_eq(lex, "\r\n") {
        return Ok(Some(Token::Newline));
    }
    if text_eq(lex, "+") {
        return Ok(Some(Token::Plus));
    }
    if text_eq(lex, "++") {
        return Ok(Some(Token::Increment));
    }
    if text_eq(lex, "+=") {
        return Ok(Some(Token::PlusAssign));
    }
    if text_eq(lex, "==") {
        return Ok(Some(Token::Equality));
    }
    if text_eq(lex, "===") {
        return Ok(Some(Token::IdEquality));
    }
    if text_eq(lex, " ") {
        return Ok(None);
    }
        let n = lex.unicode_len();
        if n == 0 {
            proof {
                reveal_strlit("0x");
            }
            return Err(LexError::UnknownToken);
        }
        let first = lex.get_char(0);
        if first == '"' {
            return Ok(Some(Token::Str(unquote(lex))));
        }
        if first == '#' {
            return Ok(None);
        }
        if n >= 2 && first == '0' && lex.get_char(1) == 'x' {
            proof {
                reveal_strlit("0x");
                assert(lex@.subrange(0, 2) =~= "0x"@);
            }
            return Ok(Some(Token::Hex(lex.to_string())));
        }
        proof {
            reveal_strlit("0x");
            if starts_with(lex@, "0x"@) {
                assert(lex@[0] == lex@.subrange(0, 2)[0]);
                assert(lex@[1] == lex@.subrange(0, 2)[1]);
                assert(false);
            }
        }
        if ('a' <= first && first <= 'z') || ('A' <= first && first <= 'Z') {
            return Ok(Some(Token::Word(lex.to_string())));
        }
        if '0' <= first && first <= '9' {
            return Ok(Some(Token::Num(lex.to_string())));
        }
        Err(LexError::UnknownToken)
    }

    /// The source text of this token.
    pub fn to_text(&self) -> (r: String)
        ensures
            r@ == token_text(self@),
    {
        match self {
            Token::Main => "main".to_string(),
            Token::Var => "var".to_string(),
            Token::Const => "const".to_string(),
            Token::New => "new".to_string(),
            Token::Class => "class".to_string(),
            Token::Ctor => "constructor".to_string(),
            Token::Func => "func".to_string(),
            Token::Print => "print".to_string(),
            Token::Return => "return".to_string(),
            Token::BlockIn => "{".to_string(),
            Token::BlockOut => "}".to_string(),
            Token::ParenIn => "(".to_string(),
            Token::ParenOut => ")".to_string(),
            Token::Assign => "=".to_string(),
            Token::Period => ".".to_string(),
            Token::Comma => ",".to_string(),
            Token::Colin => ":".to_string(),
            Token::ReturnType => "->".to_string(),
            Token::Newline => "\n".to_string(),
            Token::Plus => "+".to_string(),
            Token::Increment => "++".to_string(),
            Token::PlusAssign => "+=".to_string(),
            Token::Equality => "==".to_string(),
            Token::IdEquality => "===".to_string(),
            Token::Str(contents) => {
                let mut s = "\"".to_string();
                s.append(contents.as_str());
                s.append("\"");
                s
            },
            Token::Word(contents) => contents.clone(),
            Token::Num(contents) => contents.clone(),
            Token::Hex(contents) => contents.clone(),
        }
    }
}

} // verus!
