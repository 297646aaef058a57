//! Templates: literal text with `{a.b.c}` placeholders, evaluated against a
//! record.
//!
//! A template is read once from left to right. `{` opens a placeholder and
//! the next `}` closes it; everything else is literal text. Inside a
//! placeholder, dots part the names of a path through nested mappings.

use vstd::prelude::*;
use crate::codec::{number_text, number_to_string};
use crate::json::{Json, JsonView};
use crate::text::{
    decimal, find_char, find_in, lemma_find_in, push_decimal, push_signed_decimal, signed_decimal,
};

verus! {

/// One piece of a template.
#[derive(Debug, PartialEq)]
pub enum Token {
    /// Text that stands for itself.
    Literal(String),
    /// The names to follow from the record down to the value that is put in.
    Placeholder(Vec<String>),
}

/// What a [`Token`] is, with strings as character sequences.
pub enum TokenView {
    Literal(Seq<char>),
    Placeholder(Seq<Seq<char>>),
}

/// The character sequences of `names`, in order.
pub open spec fn names_view(names: Seq<String>) -> Seq<Seq<char>> {
    names.map_values(|name: String| name@)
}

impl View for Token {
    type V = TokenView;

    open spec fn view(&self) -> TokenView {
        match self {
            Token::Literal(text) => TokenView::Literal(text@),
            Token::Placeholder(path) => TokenView::Placeholder(names_view(path@)),
        }
    }
}

/// The views of `tokens`, in order.
pub open spec fn tokens_view(tokens: Seq<Token>) -> Seq<TokenView> {
    tokens.map_values(|token: Token| token@)
}

/// Why a template is no template.
#[derive(Clone, Copy, Debug, PartialEq, Eq, Structural)]
pub enum ParseError {
    /// The text ended inside a placeholder.
    EofInsidePlaceholder,
}

/// Why a template has no value for a record.
#[derive(Debug, PartialEq)]
pub enum Error {
    /// The record, or a mapping on the path, has no field of this name.
    KeyNotFound(String),
    /// The path ends at a sequence or a mapping, which has no text.
    TypeMismatch,
}

/// What an [`Error`] is, with strings as character sequences.
pub enum ErrorView {
    KeyNotFound(Seq<char>),
    TypeMismatch,
}

impl View for Error {
    type V = ErrorView;

    open spec fn view(&self) -> ErrorView {
        match self {
            Error::KeyNotFound(key) => ErrorView::KeyNotFound(key@),
            Error::TypeMismatch => ErrorView::TypeMismatch,
        }
    }
}

/// The names between `from` and `end` in `text`, parted at dots, behind
/// those already in `found`.
pub open spec fn path_in(text: Seq<char>, from: int, end: int, found: Seq<Seq<char>>) -> Seq<
    Seq<char>,
>
    decreases end - from,
{
    let dot = find_in(text, '.', from, end);
    if from <= dot < end {
        path_in(text, dot + 1, end, found.push(text.subrange(from, dot)))
    } else {
        found.push(text.subrange(from, end))
    }
}

/// What a reader finds at a place in a template.
pub enum Scan {
    /// The text is at its end.
    End,
    /// A placeholder opens here and the text ends before it closes.
    Broken,
    /// This token, after which reading goes on at the given place.
    Token(TokenView, int),
}

/// What stands at `pos` in `text`: a placeholder up to the next `}` where a
/// `{` stands, else literal text up to the next `{`.
pub open spec fn scan(text: Seq<char>, pos: int) -> Scan {
    if pos < 0 || pos >= text.len() {
        Scan::End
    } else if text[pos] == '{' {
        let close = find_in(text, '}', pos + 1, text.len() as int);
        if close >= text.len() {
            Scan::Broken
        } else {
            Scan::Token(TokenView::Placeholder(path_in(text, pos + 1, close, seq![])), close + 1)
        }
    } else {
        let open = find_in(text, '{', pos, text.len() as int);
        Scan::Token(TokenView::Literal(text.subrange(pos, open)), open)
    }
}

/// The tokens of `text` from `pos` on, behind those already in `found`; the
/// error if a placeholder stays open.
pub open spec fn parse_from(text: Seq<char>, pos: int, found: Seq<TokenView>) -> Result<
    Seq<TokenView>,
    ParseError,
>
    decreases text.len() - pos,
{
    match scan(text, pos) {
        Scan::End => Ok(found),
        Scan::Broken => Err(ParseError::EofInsidePlaceholder),
        Scan::Token(token, next) => if pos < next <= text.len() {
            parse_from(text, next, found.push(token))
        } else {
            Ok(found)
        },
    }
}

/// The tokens of a template.
pub open spec fn parse(text: Seq<char>) -> Result<Seq<TokenView>, ParseError> {
    parse_from(text, 0, seq![])
}

/// A token that `scan` finds ends after the place where it starts, and
/// within the text.
pub proof fn lemma_scan_advances(text: Seq<char>, pos: int)
    requires
        0 <= pos,
    ensures
        scan(text, pos) matches Scan::Token(_, next) ==> pos < next <= text.len(),
{
    if pos < text.len() {
        if text[pos] == '{' {
            lemma_find_in(text, '}', pos + 1, text.len() as int);
        } else {
            lemma_find_in(text, '{', pos, text.len() as int);
        }
    }
}

/// What a [`Parser`] is: the text it reads, the place it has reached, and
/// whether it has failed.
pub struct ParserView {
    pub text: Seq<char>,
    pub pos: int,
    pub broken: bool,
}

/// What one request returns from a parser in state `parser`, and the state
/// it leaves. A failed parser fails again and stays as it is.
pub open spec fn request(parser: ParserView) -> (Option<Result<TokenView, ParseError>>, ParserView) {
    if parser.broken {
        (Some(Err(ParseError::EofInsidePlaceholder)), parser)
    } else {
        match scan(parser.text, parser.pos) {
            Scan::End => (None, parser),
            Scan::Broken => (
                Some(Err(ParseError::EofInsidePlaceholder)),
                ParserView { broken: true, ..parser },
            ),
            Scan::Token(token, next) => (Some(Ok(token)), ParserView { pos: next, ..parser }),
        }
    }
}

/// The state of a parser after `count` requests.
pub open spec fn after_requests(parser: ParserView, count: nat) -> ParserView
    decreases count,
{
    if count == 0 {
        parser
    } else {
        request(after_requests(parser, (count - 1) as nat)).1
    }
}

/// Failure is sticky: once a request has returned the error, every later
/// request returns the same error.
pub proof fn lemma_failure_is_sticky(parser: ParserView, later: nat)
    requires
        request(parser).0 == Some(
            Err::<TokenView, ParseError>(ParseError::EofInsidePlaceholder),
        ),
    ensures
        request(after_requests(request(parser).1, later)).0 == Some(
            Err::<TokenView, ParseError>(ParseError::EofInsidePlaceholder),
        ),
        after_requests(request(parser).1, later).broken,
    decreases later,
{
    if later > 0 {
        lemma_failure_is_sticky(parser, (later - 1) as nat);
    }
}

/// A reader that hands out the tokens of a template one by one.
pub struct Parser<'a> {
    text: &'a str,
    len: usize,
    pos: usize,
    broken: bool,
}

impl<'a> View for Parser<'a> {
    type V = ParserView;

    closed spec fn view(&self) -> ParserView {
        ParserView { text: self.text@, pos: self.pos as int, broken: self.broken }
    }
}

impl<'a> Parser<'a> {
    /// The parser holds what it needs to read on: the length of its text,
    /// and a place within it.
    #[verifier::type_invariant]
    spec fn reads_within_its_text(&self) -> bool {
        &&& self.len == self.text@.len()
        &&& self.pos <= self.len
    }

    /// A parser at the start of `text`.
    pub fn new(text: &'a str) -> (parser: Parser<'a>)
        ensures
            parser@ == (ParserView { text: text@, pos: 0, broken: false }),
    {
        Parser { text, len: text.unicode_len(), pos: 0, broken: false }
    }

    /// The names between `from` and `end`, parted at dots.
    fn path(&self, from: usize, end: usize) -> (names: Vec<String>)
        requires
            from <= end <= self.len,
        ensures
            names_view(names@) == path_in(self.text@, from as int, end as int, seq![]),
    {
        proof {
            use_type_invariant(self);
        }
        let mut names: Vec<String> = Vec::new();
        let mut start: usize = from;
        assert(names_view(names@) =~= seq![]);
        loop
            invariant
                self.len == self.text@.len(),
                from <= start <= end <= self.len,
                path_in(self.text@, from as int, end as int, seq![]) == path_in(
                    self.text@,
                    start as int,
                    end as int,
                    names_view(names@),
                ),
            decreases end - start,
        {
            let dot = find_char(self.text, '.', start, end);
            let name = self.text.substring_char(start, dot).to_owned();
            let ghost before = names@;
            names.push(name);
            assert(names_view(names@) =~= names_view(before).push(name@));
            if dot >= end {
                return names;
            }
            start = dot + 1;
        }
    }

    /// The next token; the error if a placeholder stays open, now and on
    /// every later request; nothing at the end of the text.
    pub fn next(&mut self) -> (item: Option<Result<Token, ParseError>>)
        ensures
            final(self)@ == request(old(self)@).1,
            match item {
                Some(Ok(token)) => request(old(self)@).0 == Some(
                    Ok::<TokenView, ParseError>(token@),
                ),
                Some(Err(error)) => request(old(self)@).0 == Some(
                    Err::<TokenView, ParseError>(error),
                ),
                None => request(old(self)@).0.is_none(),
            },
    {
        proof {
            use_type_invariant(&*self);
        }
        if self.broken {
            return Some(Err(ParseError::EofInsidePlaceholder));
        }
        if self.pos >= self.len {
            return None;
        }
        if self.text.get_char(self.pos) == '{' {
            let close = find_char(self.text, '}', self.pos + 1, self.len);
            if close >= self.len {
                self.broken = true;
                return Some(Err(ParseError::EofInsidePlaceholder));
            }
            let names = self.path(self.pos + 1, close);
            self.pos = close + 1;
            Some(Ok(Token::Placeholder(names)))
        } else {
            let open = find_char(self.text, '{', self.pos, self.len);
            let text = self.text.substring_char(self.pos, open).to_owned();
            self.pos = open;
            Some(Ok(Token::Literal(text)))
        }
    }
}

/// The value at the end of `path` from `value` down, following the names
/// from position `from` on; the first name that is missing.
pub open spec fn walk(value: JsonView, path: Seq<Seq<char>>, from: int) -> Result<JsonView, ErrorView>
    decreases path.len() - from,
{
    if from < 0 || from >= path.len() {
        Ok(value)
    } else {
        match value.lookup(path[from]) {
            Some(child) => walk(child, path, from + 1),
            None => Err(ErrorView::KeyNotFound(path[from])),
        }
    }
}

/// The text of a value: a string as it is, a boolean as `true` or `false`,
/// a number in decimal, null as `null`. A sequence or a mapping has none.
pub open spec fn text_of(value: JsonView) -> Result<Seq<char>, ErrorView> {
    match value {
        JsonView::Null => Ok("null"@),
        JsonView::Bool(b) => Ok(
            if b {
                "true"@
            } else {
                "false"@
            },
        ),
        JsonView::Int(i) => Ok(signed_decimal(i as int)),
        JsonView::UInt(u) => Ok(decimal(u as nat)),
        JsonView::Float(n) => Ok(number_text(n)),
        JsonView::Str(s) => Ok(s),
        JsonView::Array(_) => Err(ErrorView::TypeMismatch),
        JsonView::Object(_) => Err(ErrorView::TypeMismatch),
    }
}

/// What one token gives for `record`.
pub open spec fn render_token(token: TokenView, record: JsonView) -> Result<Seq<char>, ErrorView> {
    match token {
        TokenView::Literal(text) => Ok(text),
        TokenView::Placeholder(path) => match walk(record, path, 0) {
            Ok(value) => text_of(value),
            Err(error) => Err(error),
        },
    }
}

/// What the tokens from position `from` on give for `record`, behind the
/// text already in `out`; the error of the first token that has none.
pub open spec fn render_from(tokens: Seq<TokenView>, record: JsonView, from: int, out: Seq<char>) -> Result<
    Seq<char>,
    ErrorView,
>
    decreases tokens.len() - from,
{
    if from < 0 || from >= tokens.len() {
        Ok(out)
    } else {
        match render_token(tokens[from], record) {
            Ok(text) => render_from(tokens, record, from + 1, out + text),
            Err(error) => Err(error),
        }
    }
}

/// What a template gives for `record`: the texts of its tokens, one after
/// another.
pub open spec fn render(tokens: Seq<TokenView>, record: JsonView) -> Result<Seq<char>, ErrorView> {
    render_from(tokens, record, 0, seq![])
}

/// The first `count` names of `path`, each with a dot behind it.
pub open spec fn dotted(path: Seq<Seq<char>>, count: int) -> Seq<char>
    decreases count,
{
    if count <= 0 {
        seq![]
    } else {
        dotted(path, count - 1) + path[count - 1] + seq!['.']
    }
}

/// The names of `path` with dots between them.
pub open spec fn joined(path: Seq<Seq<char>>) -> Seq<char> {
    if path.len() == 0 {
        seq![]
    } else {
        dotted(path, path.len() - 1) + path.last()
    }
}

/// The text that a token was read from.
pub open spec fn token_source(token: TokenView) -> Seq<char> {
    match token {
        TokenView::Literal(text) => text,
        TokenView::Placeholder(path) => seq!['{'] + joined(path) + seq!['}'],
    }
}

/// The text that the first `count` of `tokens` were read from.
pub open spec fn source_of(tokens: Seq<TokenView>, count: int) -> Seq<char>
    decreases count,
{
    if count <= 0 {
        seq![]
    } else {
        source_of(tokens, count - 1) + token_source(tokens[count - 1])
    }
}

proof fn lemma_dotted_of_prefix(short: Seq<Seq<char>>, long: Seq<Seq<char>>, count: int)
    requires
        count <= short.len() <= long.len(),
        forall|i: int| 0 <= i < short.len() ==> short[i] == long[i],
    ensures
        dotted(short, count) == dotted(long, count),
    decreases count,
{
    if count > 0 {
        lemma_dotted_of_prefix(short, long, count - 1);
    }
}

proof fn lemma_source_of_prefix(short: Seq<TokenView>, long: Seq<TokenView>, count: int)
    requires
        count <= short.len() <= long.len(),
        forall|i: int| 0 <= i < short.len() ==> short[i] == long[i],
    ensures
        source_of(short, count) == source_of(long, count),
    decreases count,
{
    if count > 0 {
        lemma_source_of_prefix(short, long, count - 1);
    }
}

/// The names that `path_in` finds, joined with dots, are the text that it
/// read them from.
proof fn lemma_path_spells_its_text(
    text: Seq<char>,
    start: int,
    from: int,
    end: int,
    found: Seq<Seq<char>>,
)
    requires
        0 <= start <= from <= end <= text.len(),
        dotted(found, found.len() as int) == text.subrange(start, from),
    ensures
        joined(path_in(text, from, end, found)) == text.subrange(start, end),
    decreases end - from,
{
    let dot = find_in(text, '.', from, end);
    lemma_find_in(text, '.', from, end);
    if from <= dot < end {
        let more = found.push(text.subrange(from, dot));
        lemma_dotted_of_prefix(found, more, found.len() as int);
        assert(dotted(more, more.len() as int) =~= text.subrange(start, dot + 1));
        lemma_path_spells_its_text(text, start, dot + 1, end, more);
    } else {
        let path = found.push(text.subrange(from, end));
        lemma_dotted_of_prefix(found, path, found.len() as int);
        assert(joined(path) =~= text.subrange(start, end));
    }
}

/// The token that `scan` finds spells the text from its place to the next.
proof fn lemma_token_spells_its_text(text: Seq<char>, pos: int)
    requires
        0 <= pos,
    ensures
        scan(text, pos) matches Scan::Token(token, next) ==> pos < next <= text.len()
            && token_source(token) == text.subrange(pos, next),
{
    lemma_scan_advances(text, pos);
    if pos < text.len() && text[pos] == '{' {
        let close = find_in(text, '}', pos + 1, text.len() as int);
        lemma_find_in(text, '}', pos + 1, text.len() as int);
        if close < text.len() {
            assert(dotted(seq![], 0) =~= text.subrange(pos + 1, pos + 1));
            lemma_path_spells_its_text(text, pos + 1, pos + 1, close, seq![]);
            let path = path_in(text, pos + 1, close, seq![]);
            assert(seq!['{'] + joined(path) + seq!['}'] =~= text.subrange(pos, close + 1));
        }
    }
}

proof fn lemma_parse_keeps_the_text(text: Seq<char>, pos: int, found: Seq<TokenView>)
    requires
        0 <= pos <= text.len(),
        source_of(found, found.len() as int) == text.take(pos),
    ensures
        parse_from(text, pos, found) matches Ok(tokens) ==> source_of(tokens, tokens.len() as int)
            == text,
    decreases text.len() - pos,
{
    lemma_token_spells_its_text(text, pos);
    match scan(text, pos) {
        Scan::End => {
            assert(text.take(pos) =~= text);
        },
        Scan::Broken => {},
        Scan::Token(token, next) => {
            let more = found.push(token);
            lemma_source_of_prefix(found, more, found.len() as int);
            assert(source_of(more, more.len() as int) =~= text.take(next));
            lemma_parse_keeps_the_text(text, next, more);
        },
    }
}

/// Parsing loses nothing: the texts that the tokens of a template were read
/// from, one after another, are the template.
pub proof fn lemma_tokens_spell_the_template(text: Seq<char>)
    ensures
        parse(text) matches Ok(tokens) ==> source_of(tokens, tokens.len() as int) == text,
{
    assert(source_of(seq![], 0) =~= text.take(0));
    lemma_parse_keeps_the_text(text, 0, seq![]);
}

/// Whether a name holds neither a dot nor a closing brace.
pub open spec fn name_is_plain(name: Seq<char>) -> bool {
    forall|k: int| 0 <= k < name.len() ==> name[k] != '.' && name[k] != '}'
}

/// Whether a token is one that reading can give: literal text that is not
/// empty and holds no opening brace, or a path of at least one name, each of
/// them plain.
pub open spec fn token_is_canonical(token: TokenView) -> bool {
    match token {
        TokenView::Literal(text) => text.len() > 0 && forall|k: int|
            0 <= k < text.len() ==> text[k] != '{',
        TokenView::Placeholder(path) => path.len() > 0 && forall|i: int|
            0 <= i < path.len() ==> name_is_plain(#[trigger] path[i]),
    }
}

/// Whether tokens are such as reading can give: each of them is, and no
/// literal text stands next to another.
pub open spec fn tokens_are_canonical(tokens: Seq<TokenView>) -> bool {
    &&& forall|i: int| 0 <= i < tokens.len() ==> token_is_canonical(#[trigger] tokens[i])
    &&& forall|i: int|
        0 <= i < tokens.len() - 1 ==> !((#[trigger] tokens[i]) is Literal && tokens[i + 1] is Literal)
}

proof fn lemma_path_is_plain(text: Seq<char>, from: int, end: int, found: Seq<Seq<char>>)
    requires
        0 <= from <= end <= text.len(),
        forall|k: int| from <= k < end ==> text[k] != '}',
        forall|i: int| 0 <= i < found.len() ==> name_is_plain(#[trigger] found[i]),
    ensures
        path_in(text, from, end, found).len() > 0,
        forall|i: int|
            0 <= i < path_in(text, from, end, found).len() ==> name_is_plain(
                #[trigger] path_in(text, from, end, found)[i],
            ),
    decreases end - from,
{
    let dot = find_in(text, '.', from, end);
    lemma_find_in(text, '.', from, end);
    if from <= dot < end {
        let name = text.subrange(from, dot);
        assert(name_is_plain(name));
        lemma_path_is_plain(text, dot + 1, end, found.push(name));
    } else {
        let name = text.subrange(from, end);
        assert(name_is_plain(name));
    }
}

proof fn lemma_token_is_canonical(text: Seq<char>, pos: int)
    requires
        0 <= pos,
    ensures
        scan(text, pos) matches Scan::Token(token, next) ==> token_is_canonical(token) && (
        token is Literal ==> next >= text.len() || text[next] == '{') && (token is Literal
            <==> text[pos] != '{'),
{
    if pos < text.len() {
        if text[pos] == '{' {
            let close = find_in(text, '}', pos + 1, text.len() as int);
            lemma_find_in(text, '}', pos + 1, text.len() as int);
            if close < text.len() {
                lemma_path_is_plain(text, pos + 1, close, seq![]);
            }
        } else {
            lemma_find_in(text, '{', pos, text.len() as int);
        }
    }
}

proof fn lemma_parse_is_canonical(text: Seq<char>, pos: int, found: Seq<TokenView>)
    requires
        0 <= pos <= text.len(),
        tokens_are_canonical(found),
        found.len() > 0 && found.last() is Literal ==> pos >= text.len() || text[pos] == '{',
    ensures
        parse_from(text, pos, found) matches Ok(tokens) ==> tokens_are_canonical(tokens),
    decreases text.len() - pos,
{
    lemma_scan_advances(text, pos);
    lemma_token_is_canonical(text, pos);
    if let Scan::Token(token, next) = scan(text, pos) {
        let more = found.push(token);
        assert(tokens_are_canonical(more)) by {
            assert forall|i: int| 0 <= i < more.len() implies token_is_canonical(
                #[trigger] more[i],
            ) by {
                if i < found.len() {
                    assert(more[i] == found[i]);
                }
            }
            assert forall|i: int| 0 <= i < more.len() - 1 implies !((#[trigger] more[i])
                is Literal && more[i + 1] is Literal) by {
                if i < found.len() - 1 {
                    assert(more[i] == found[i]);
                    assert(more[i + 1] == found[i + 1]);
                }
            }
        }
        lemma_parse_is_canonical(text, next, more);
    }
}

/// The tokens of a template are such as reading can give.
pub proof fn lemma_tokens_are_canonical(text: Seq<char>)
    ensures
        parse(text) matches Ok(tokens) ==> tokens_are_canonical(tokens),
{
    lemma_parse_is_canonical(text, 0, seq![]);
}

/// Where no character from `from` up to `at` is the wanted one, and the one
/// at `at` is unless `at` is the end, `find_in` gives `at`.
proof fn lemma_find_in_is(text: Seq<char>, wanted: char, from: int, end: int, at: int)
    requires
        from <= at <= end,
        forall|k: int| from <= k < at ==> text[k] != wanted,
        at < end ==> text[at] == wanted,
    ensures
        find_in(text, wanted, from, end) == at,
    decreases at - from,
{
    if from < at {
        lemma_find_in_is(text, wanted, from + 1, end, at);
    }
}

/// The text of fewer tokens stands at the start of the text of more.
proof fn lemma_source_grows(tokens: Seq<TokenView>, count: int, more: int)
    requires
        0 <= count <= more <= tokens.len(),
    ensures
        source_of(tokens, count).len() <= source_of(tokens, more).len(),
        source_of(tokens, more).take(source_of(tokens, count).len() as int) == source_of(
            tokens,
            count,
        ),
        count < more ==> source_of(tokens, count).len() + token_source(tokens[count]).len()
            <= source_of(tokens, more).len() && source_of(tokens, more).subrange(
            source_of(tokens, count).len() as int,
            (source_of(tokens, count).len() + token_source(tokens[count]).len()) as int,
        ) == token_source(tokens[count]),
    decreases more - count,
{
    let short = source_of(tokens, count);
    if count == more {
        assert(short.take(short.len() as int) =~= short);
    } else {
        lemma_source_grows(tokens, count, more - 1);
        let before = source_of(tokens, more - 1);
        let whole = source_of(tokens, more);
        assert(whole =~= before + token_source(tokens[more - 1]));
        assert(whole.take(short.len() as int) =~= before.take(short.len() as int));
        if count == more - 1 {
            assert(before.take(short.len() as int) =~= before);
            assert(whole.subrange(short.len() as int, whole.len() as int) =~= token_source(
                tokens[count],
            ));
        } else {
            let piece = token_source(tokens[count]);
            assert(whole.subrange(short.len() as int, (short.len() + piece.len()) as int)
                =~= before.subrange(short.len() as int, (short.len() + piece.len()) as int));
        }
    }
}

/// The dotted names of fewer names stand at the start of those of more.
proof fn lemma_dotted_grows(path: Seq<Seq<char>>, count: int, more: int)
    requires
        0 <= count <= more <= path.len(),
    ensures
        dotted(path, count).len() <= dotted(path, more).len(),
        dotted(path, more).take(dotted(path, count).len() as int) == dotted(path, count),
    decreases more - count,
{
    let short = dotted(path, count);
    if count == more {
        assert(short.take(short.len() as int) =~= short);
    } else {
        lemma_dotted_grows(path, count, more - 1);
        let before = dotted(path, more - 1);
        let whole = dotted(path, more);
        assert(whole =~= before + path[more - 1] + seq!['.']);
        assert(whole.take(short.len() as int) =~= before.take(short.len() as int));
    }
}

/// Plain names with dots behind them hold no closing brace.
proof fn lemma_dotted_has_no_brace(path: Seq<Seq<char>>, count: int)
    requires
        0 <= count <= path.len(),
        forall|i: int| 0 <= i < path.len() ==> name_is_plain(#[trigger] path[i]),
    ensures
        forall|k: int| 0 <= k < dotted(path, count).len() ==> dotted(path, count)[k] != '}',
    decreases count,
{
    if count > 0 {
        lemma_dotted_has_no_brace(path, count - 1);
        let before = dotted(path, count - 1);
        let name = path[count - 1];
        assert(name_is_plain(name));
        assert(dotted(path, count) =~= before + name + seq!['.']);
        assert forall|k: int| 0 <= k < dotted(path, count).len() implies dotted(path, count)[k]
            != '}' by {
            if k < before.len() {
                assert(dotted(path, count)[k] == before[k]);
            } else if k < before.len() + name.len() {
                assert(dotted(path, count)[k] == name[k - before.len()]);
            } else {
                assert(dotted(path, count)[k] == '.');
            }
        }
    }
}

/// Parting the joined names of a path at its dots gives the path back,
/// where its names are plain.
proof fn lemma_path_of_joined(
    text: Seq<char>,
    start: int,
    end: int,
    path: Seq<Seq<char>>,
    done: int,
)
    requires
        0 <= start <= end <= text.len(),
        0 <= done < path.len(),
        forall|i: int| 0 <= i < path.len() ==> name_is_plain(#[trigger] path[i]),
        text.subrange(start, end) == joined(path),
    ensures
        path_in(text, start + dotted(path, done).len(), end, path.take(done)) == path,
    decreases path.len() - done,
{
    let last = path.len() - 1;
    let whole = joined(path);
    let from = start + dotted(path, done).len();
    let name = path[done];
    assert(name_is_plain(name));
    lemma_dotted_grows(path, done, last);
    assert(whole =~= dotted(path, last) + path.last());
    assert(whole.len() == end - start);
    assert forall|k: int| start <= k < end implies text[k] == whole[k - start] by {
        assert(text.subrange(start, end)[k - start] == text[k]);
    }
    if done == last {
        assert(from + name.len() == end);
        assert forall|k: int| from <= k < end implies text[k] == name[k - from] by {
            assert(text[k] == whole[k - start]);
        }
        lemma_find_in_is(text, '.', from, end, end);
        assert(text.subrange(from, end) =~= name);
        assert(path.take(done).push(name) =~= path);
    } else {
        lemma_dotted_grows(path, done + 1, last);
        let next = dotted(path, done + 1);
        assert(next =~= dotted(path, done) + name + seq!['.']);
        let dot = from + name.len();
        assert(next.len() == dot + 1 - start);
        assert(next.len() <= dotted(path, last).len());
        assert(dot < end);
        assert forall|k: int| from <= k <= dot implies text[k] == next[k - start] by {
            assert(text[k] == whole[k - start]);
            assert(whole[k - start] == dotted(path, last)[k - start]);
            assert(dotted(path, last).take(next.len() as int)[k - start] == dotted(
                path,
                last,
            )[k - start]);
        }
        assert forall|k: int| from <= k < dot implies text[k] == name[k - from] by {
            assert(text[k] == next[k - start]);
        }
        assert(text[dot] == next[dot - start]);
        assert(text[dot] == '.');
        lemma_find_in_is(text, '.', from, end, dot);
        assert(text.subrange(from, dot) =~= name);
        assert(path.take(done).push(name) =~= path.take(done + 1));
        lemma_path_of_joined(text, start, end, path, done + 1);
    }
}

/// Literal text that stands in a template where no other literal text
/// follows it is what reading finds at its place.
proof fn lemma_literal_is_scanned(text: Seq<char>, pos: int, literal: Seq<char>)
    requires
        0 <= pos,
        literal.len() > 0,
        pos + literal.len() <= text.len(),
        text.subrange(pos, pos + literal.len()) == literal,
        forall|k: int| 0 <= k < literal.len() ==> literal[k] != '{',
        pos + literal.len() < text.len() ==> text[pos + literal.len()] == '{',
    ensures
        scan(text, pos) == Scan::Token(TokenView::Literal(literal), pos + literal.len()),
{
    let next = pos + literal.len();
    assert forall|k: int| pos <= k < next implies text[k] == literal[k - pos] by {
        assert(text.subrange(pos, next)[k - pos] == text[k]);
    }
    lemma_find_in_is(text, '{', pos, text.len() as int, next);
    assert(text.subrange(pos, next) =~= literal);
}

/// A placeholder of plain names that stands in a template is what reading
/// finds at its place.
proof fn lemma_placeholder_is_scanned(text: Seq<char>, pos: int, path: Seq<Seq<char>>)
    requires
        0 <= pos,
        path.len() > 0,
        forall|i: int| 0 <= i < path.len() ==> name_is_plain(#[trigger] path[i]),
        pos + joined(path).len() + 2 <= text.len(),
        text.subrange(pos, pos + joined(path).len() + 2) == seq!['{'] + joined(path) + seq!['}'],
    ensures
        scan(text, pos) == Scan::Token(
            TokenView::Placeholder(path),
            pos + joined(path).len() + 2,
        ),
{
    let inner = joined(path);
    let piece = seq!['{'] + inner + seq!['}'];
    let close = pos + 1 + inner.len();
    assert forall|k: int| pos <= k <= close implies text[k] == piece[k - pos] by {
        assert(text.subrange(pos, close + 1)[k - pos] == text[k]);
    }
    assert(text[pos] == '{');
    assert(text[close] == '}');
    lemma_dotted_has_no_brace(path, path.len() - 1);
    assert(name_is_plain(path.last()));
    assert forall|k: int| pos + 1 <= k < close implies text[k] != '}' by {
        assert(text[k] == piece[k - pos]);
        assert(piece[k - pos] == inner[k - pos - 1]);
        let dots = dotted(path, path.len() - 1);
        if k - pos - 1 < dots.len() {
            assert(inner[k - pos - 1] == dots[k - pos - 1]);
        } else {
            assert(inner[k - pos - 1] == path.last()[k - pos - 1 - dots.len()]);
        }
    }
    lemma_find_in_is(text, '}', pos + 1, text.len() as int, close);
    assert(text.subrange(pos + 1, close) =~= inner);
    assert(dotted(path, 0) =~= seq![]);
    assert(path.take(0) =~= seq![]);
    lemma_path_of_joined(text, pos + 1, close, path, 0);
}

proof fn lemma_canonical_tokens_are_parsed(text: Seq<char>, tokens: Seq<TokenView>, done: int)
    requires
        tokens_are_canonical(tokens),
        source_of(tokens, tokens.len() as int) == text,
        0 <= done <= tokens.len(),
    ensures
        parse_from(text, source_of(tokens, done).len() as int, tokens.take(done)) == Ok::<
            Seq<TokenView>,
            ParseError,
        >(tokens),
    decreases tokens.len() - done,
{
    let pos = source_of(tokens, done).len() as int;
    lemma_source_grows(tokens, done, tokens.len() as int);
    if done == tokens.len() {
        assert(tokens.take(done) =~= tokens);
    } else {
        let token = tokens[done];
        let piece = token_source(token);
        let next = pos + piece.len();
        assert(token_is_canonical(token));
        assert(source_of(tokens, done + 1) =~= source_of(tokens, done) + piece);
        assert(tokens.take(done).push(token) =~= tokens.take(done + 1));
        match token {
            TokenView::Literal(literal) => {
                if next < text.len() {
                    lemma_source_grows(tokens, done + 1, tokens.len() as int);
                    let after = tokens[done + 1];
                    assert(token_is_canonical(after));
                    assert(after is Placeholder);
                    let following = token_source(after);
                    assert(following[0] == '{');
                    assert(text.subrange(next, next + following.len())[0] == text[next]);
                }
                lemma_literal_is_scanned(text, pos, literal);
            },
            TokenView::Placeholder(path) => {
                assert(piece.len() == joined(path).len() + 2);
                lemma_placeholder_is_scanned(text, pos, path);
            },
        }
        assert(scan(text, pos) == Scan::Token(token, next));
        lemma_canonical_tokens_are_parsed(text, tokens, done + 1);
    }
}

/// There is one way to cut a template into tokens: tokens that reading can
/// give and that spell the template are the tokens of the template. With
/// [`lemma_tokens_spell_the_template`] and [`lemma_tokens_are_canonical`]
/// this says what the tokens of a template are without saying how they are
/// found.
pub proof fn lemma_canonical_tokens_are_the_parse(text: Seq<char>, tokens: Seq<TokenView>)
    requires
        tokens_are_canonical(tokens),
        source_of(tokens, tokens.len() as int) == text,
    ensures
        parse(text) == Ok::<Seq<TokenView>, ParseError>(tokens),
{
    assert(tokens.take(0) =~= seq![]);
    lemma_canonical_tokens_are_parsed(text, tokens, 0);
}

/// What the tokens of a template are, without a word on how they are found:
/// the tokens that reading can give and that spell the template. A template
/// is refused exactly when there are none.
pub proof fn lemma_parse_is_the_one_cut(text: Seq<char>, tokens: Seq<TokenView>)
    ensures
        parse(text) == Ok::<Seq<TokenView>, ParseError>(tokens) <==> tokens_are_canonical(tokens)
            && source_of(tokens, tokens.len() as int) == text,
        parse(text) is Err ==> !(tokens_are_canonical(tokens) && source_of(
            tokens,
            tokens.len() as int,
        ) == text),
{
    lemma_tokens_spell_the_template(text);
    lemma_tokens_are_canonical(text);
    if tokens_are_canonical(tokens) && source_of(tokens, tokens.len() as int) == text {
        lemma_canonical_tokens_are_the_parse(text, tokens);
    }
}

/// A template without `{` is literal text: whatever the record, it gives
/// exactly its own text.
pub proof fn lemma_literal_template(text: Seq<char>, record: JsonView)
    requires
        forall|i: int| 0 <= i < text.len() ==> text[i] != '{',
    ensures
        parse(text) matches Ok(tokens) && render(tokens, record) == Ok::<Seq<char>, ErrorView>(
            text,
        ),
{
    reveal_with_fuel(parse_from, 3);
    reveal_with_fuel(render_from, 3);
    if text.len() == 0 {
        assert(text =~= seq![]);
    } else {
        lemma_find_in(text, '{', 0, text.len() as int);
        assert(text.subrange(0, text.len() as int) =~= text);
        let tokens = seq![TokenView::Literal(text)];
        assert(seq![].push(TokenView::Literal(text)) =~= tokens);
        assert(parse(text) == Ok::<Seq<TokenView>, ParseError>(tokens));
        assert(seq![] + text =~= text);
    }
}

/// Parsing and evaluating are functions: one template has one sequence of
/// tokens, and one sequence of tokens has one text for a record. So two
/// generators made from the same template are equal as values, and two
/// evaluations of one against the same record give the same text.
pub proof fn lemma_template_is_a_function(
    template: Seq<char>,
    record: JsonView,
    first: Seq<TokenView>,
    second: Seq<TokenView>,
    first_text: Result<Seq<char>, ErrorView>,
    second_text: Result<Seq<char>, ErrorView>,
)
    requires
        parse(template) == Ok::<Seq<TokenView>, ParseError>(first),
        parse(template) == Ok::<Seq<TokenView>, ParseError>(second),
        first_text == render(first, record),
        second_text == render(second, record),
    ensures
        first == second,
        first_text == second_text,
{
}

/// The texts that the first `count` of `tokens` give for `record`, one
/// after another; a token that gives none adds nothing.
pub open spec fn texts_of(tokens: Seq<TokenView>, record: JsonView, count: int) -> Seq<char>
    decreases count,
{
    if count <= 0 {
        seq![]
    } else {
        texts_of(tokens, record, count - 1) + match render_token(tokens[count - 1], record) {
            Ok(text) => text,
            Err(_) => seq![],
        }
    }
}

proof fn lemma_render_from(tokens: Seq<TokenView>, record: JsonView, from: int)
    requires
        0 <= from <= tokens.len(),
        forall|k: int| 0 <= k < from ==> render_token(#[trigger] tokens[k], record) is Ok,
    ensures
        match render_from(tokens, record, from, texts_of(tokens, record, from)) {
            Ok(text) => text == texts_of(tokens, record, tokens.len() as int) && forall|k: int|
                0 <= k < tokens.len() ==> render_token(#[trigger] tokens[k], record) is Ok,
            Err(error) => exists|at: int|
                from <= at < tokens.len() && render_token(#[trigger] tokens[at], record) == Err::<
                    Seq<char>,
                    ErrorView,
                >(error) && forall|k: int|
                    0 <= k < at ==> render_token(#[trigger] tokens[k], record) is Ok,
        },
    decreases tokens.len() - from,
{
    if from < tokens.len() {
        match render_token(tokens[from], record) {
            Ok(text) => {
                lemma_render_from(tokens, record, from + 1);
            },
            Err(error) => {
                assert(render_token(tokens[from], record) == Err::<Seq<char>, ErrorView>(error));
            },
        }
    }
}

/// What a template gives, said directly: the texts of all its tokens, one
/// after another, where every token has a text; else the error of the first
/// token that has none.
pub proof fn lemma_render_is_all_texts_or_the_first_error(tokens: Seq<TokenView>, record: JsonView)
    ensures
        match render(tokens, record) {
            Ok(text) => text == texts_of(tokens, record, tokens.len() as int) && forall|k: int|
                0 <= k < tokens.len() ==> render_token(#[trigger] tokens[k], record) is Ok,
            Err(error) => exists|at: int|
                0 <= at < tokens.len() && render_token(#[trigger] tokens[at], record) == Err::<
                    Seq<char>,
                    ErrorView,
                >(error) && forall|k: int|
                    0 <= k < at ==> render_token(#[trigger] tokens[k], record) is Ok,
        },
{
    lemma_render_from(tokens, record, 0);
}

/// A parsed template.
#[derive(Debug, PartialEq)]
pub struct Generator {
    tokens: Vec<Token>,
}

impl View for Generator {
    type V = Seq<TokenView>;

    closed spec fn view(&self) -> Seq<TokenView> {
        tokens_view(self.tokens@)
    }
}

/// Appends the text of `value` to `out`, if it has one.
fn push_text(out: &mut String, value: &Json) -> (done: Result<(), Error>)
    ensures
        match done {
            Ok(_) => text_of(value@) matches Ok(text) && final(out)@ == old(out)@ + text,
            Err(error) => text_of(value@) == Err::<Seq<char>, ErrorView>(error@) && final(out)@
                == old(out)@,
        },
{
    match value {
        Json::Null => {
            out.append("null");
            Ok(())
        },
        Json::Bool(b) => {
            if *b {
                out.append("true");
            } else {
                out.append("false");
            }
            Ok(())
        },
        Json::Int(i) => {
            push_signed_decimal(out, *i);
            Ok(())
        },
        Json::UInt(u) => {
            push_decimal(out, *u);
            Ok(())
        },
        Json::Float(n) => {
            let text = number_to_string(n);
            out.append(text.as_str());
            Ok(())
        },
        Json::Str(s) => {
            out.append(s.as_str());
            Ok(())
        },
        Json::Array(_) => Err(Error::TypeMismatch),
        Json::Object(_) => Err(Error::TypeMismatch),
    }
}

/// The value at the end of `path` from `record` down.
fn follow<'r>(record: &'r Json, path: &Vec<String>) -> (found: Result<&'r Json, Error>)
    ensures
        match found {
            Ok(value) => walk(record@, names_view(path@), 0) == Ok::<JsonView, ErrorView>(value@),
            Err(error) => walk(record@, names_view(path@), 0) == Err::<JsonView, ErrorView>(
                error@,
            ),
        },
{
    let mut value: &Json = record;
    let mut i: usize = 0;
    while i < path.len()
        invariant
            i <= path.len(),
            walk(record@, names_view(path@), 0) == walk(value@, names_view(path@), i as int),
        decreases path.len() - i,
    {
        match value.lookup(path[i].as_str()) {
            Some(child) => {
                value = child;
            },
            None => {
                return Err(Error::KeyNotFound(path[i].clone()));
            },
        }
        i += 1;
    }
    Ok(value)
}

impl Generator {
    /// Parses `template`.
    pub fn new(template: &str) -> (parsed: Result<Generator, ParseError>)
        ensures
            match parsed {
                Ok(generator) => parse(template@) == Ok::<Seq<TokenView>, ParseError>(generator@),
                Err(error) => parse(template@) == Err::<Seq<TokenView>, ParseError>(error),
            },
    {
        let mut parser = Parser::new(template);
        let mut tokens: Vec<Token> = Vec::new();
        assert(tokens_view(tokens@) =~= seq![]);
        loop
            invariant
                parser@.text == template@,
                !parser@.broken,
                0 <= parser@.pos,
                parse(template@) == parse_from(template@, parser@.pos, tokens_view(tokens@)),
            decreases template@.len() - parser@.pos,
        {
            proof {
                lemma_scan_advances(template@, parser@.pos);
            }
            match parser.next() {
                None => {
                    return Ok(Generator { tokens });
                },
                Some(Err(error)) => {
                    return Err(error);
                },
                Some(Ok(token)) => {
                    let ghost before = tokens@;
                    tokens.push(token);
                    assert(tokens_view(tokens@) =~= tokens_view(before).push(token@));
                },
            }
        }
    }

    /// The text that the template gives for `record`.
    pub fn consume(&self, record: &Json) -> (text: Result<String, Error>)
        ensures
            match text {
                Ok(text) => render(self@, record@) == Ok::<Seq<char>, ErrorView>(text@),
                Err(error) => render(self@, record@) == Err::<Seq<char>, ErrorView>(error@),
            },
    {
        let mut out = String::new();
        let mut i: usize = 0;
        while i < self.tokens.len()
            invariant
                i <= self.tokens.len(),
                render(self@, record@) == render_from(self@, record@, i as int, out@),
            decreases self.tokens.len() - i,
        {
            match &self.tokens[i] {
                Token::Literal(text) => {
                    out.append(text.as_str());
                },
                Token::Placeholder(path) => {
                    match follow(record, path) {
                        Ok(value) => match push_text(&mut out, value) {
                            Ok(_) => {},
                            Err(error) => {
                                return Err(error);
                            },
                        },
                        Err(error) => {
                            return Err(error);
                        },
                    }
                },
            }
            i += 1;
        }
        Ok(out)
    }

    /// Appends the bytes of the text that the template gives for `record`
    /// to `buf`. Where the template has no text for it, `buf` stays as it is.
    pub fn feed(&self, buf: &mut Vec<u8>, record: &Json) -> (done: Result<(), Error>)
        ensures
            match done {
                Ok(_) => render(self@, record@) matches Ok(text) && final(buf)@ == old(buf)@
                    + vstd::utf8::encode_utf8(text),
                Err(error) => render(self@, record@) == Err::<Seq<char>, ErrorView>(error@)
                    && final(buf)@ == old(buf)@,
            },
    {
        match self.consume(record) {
            Ok(text) => {
                buf.extend_from_slice(text.as_str().as_bytes());
                Ok(())
            },
            Err(error) => Err(error),
        }
    }
}

} // verus!
