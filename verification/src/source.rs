//! The input of the macro: its tokens, and what the Rust parser makes of them.
//!
//! A group without visible delimiters is transparent: what looks at a token looks at the first
//! token inside. Such a group comes about when a macro passes on what it was given. The input is
//! therefore read as a list of entries, in which such a group is a mark followed by what it holds,
//! and a position in the input is the number of entries before it. Behind the mark, the content
//! of the group goes on without a border into what follows the group.

use vstd::prelude::*;

use proc_macro2::{Delimiter, Spacing, TokenStream, TokenTree};
use syn::parse::{ParseStream, Parser};

verus! {

/// A sequence of token trees, as the compiler hands it to the macro.
#[verifier::external_type_specification]
#[verifier::external_body]
pub struct ExTokenStream(proc_macro2::TokenStream);

/// What stands around a group.
#[derive(Clone, Copy, Debug, PartialEq, Eq, Structural)]
pub enum Delim {
    Parenthesis,
    Brace,
    Bracket,
    /// Nothing that can be seen.
    Hidden,
}

/// A token tree. What a group holds is a stream of its own.
pub enum Tree {
    /// A word: an identifier or a keyword.
    Ident(String),
    /// A punctuation character, and whether another one follows it directly.
    Punct(char, bool),
    /// A literal.
    Literal(String),
    /// A delimited group.
    Group(Delim, TokenStream),
}

/// The mathematical form of a token tree, with all that it holds.
pub enum TreeView {
    Ident(Seq<char>),
    Punct(char, bool),
    Literal(Seq<char>),
    Group(Delim, Seq<TreeView>),
}

/// The token trees of a stream, in order.
pub uninterp spec fn stream_trees(stream: proc_macro2::TokenStream) -> Seq<TreeView>;

/// Whether an identifier that is not a keyword comes first.
pub uninterp spec fn ident_first(trees: Seq<TreeView>) -> bool;

/// The expression that comes first: what follows it, and the message about the first token that
/// is left over inside one of its groups; or the message that says why none comes first.
pub uninterp spec fn expr_first(trees: Seq<TreeView>) -> Result<
    (Seq<TreeView>, Option<Seq<char>>),
    Seq<char>,
>;

/// The pattern that comes first, if one does: what follows it, and the message about the first
/// token that is left over inside one of its groups.
pub uninterp spec fn pattern_first(trees: Seq<TreeView>) -> Option<
    (Seq<TreeView>, Option<Seq<char>>),
>;

impl View for Tree {
    type V = TreeView;

    open spec fn view(&self) -> TreeView {
        match self {
            Tree::Ident(text) => TreeView::Ident(text@),
            Tree::Punct(ch, joint) => TreeView::Punct(*ch, *joint),
            Tree::Literal(text) => TreeView::Literal(text@),
            Tree::Group(delim, stream) => TreeView::Group(*delim, stream_trees(*stream)),
        }
    }
}

/// The mathematical form of a list of token trees.
pub open spec fn tree_views(trees: Seq<Tree>) -> Seq<TreeView> {
    trees.map_values(|tree: Tree| tree@)
}

/// The mathematical form of a message, if there is one.
pub open spec fn message_view(message: Option<String>) -> Option<Seq<char>> {
    match message {
        Some(text) => Some(text@),
        None => None,
    }
}

/// Walks a `proc_macro2::TokenStream` with its iterator: one tree for each, in order.
#[verifier::external_body]
fn trees(stream: &TokenStream) -> (trees: Vec<Tree>)
    ensures
        tree_views(trees@) == stream_trees(*stream),
{
    stream.clone().into_iter().map(|tree| match tree {
        TokenTree::Ident(ident) => Tree::Ident(ident.to_string()),
        TokenTree::Punct(punct) => Tree::Punct(punct.as_char(), punct.spacing() == Spacing::Joint),
        TokenTree::Literal(literal) => Tree::Literal(literal.to_string()),
        TokenTree::Group(group) => Tree::Group(match group.delimiter() {
            Delimiter::Parenthesis => Delim::Parenthesis,
            Delimiter::Brace => Delim::Brace,
            Delimiter::Bracket => Delim::Bracket,
            Delimiter::None => Delim::Hidden,
        }, group.stream()),
    }).collect()
}

/// Collects a `proc_macro2::TokenStream` from all trees of another but the first.
#[verifier::external_body]
fn tail(stream: &TokenStream) -> (tail: TokenStream)
    requires
        stream_trees(*stream).len() > 0,
    ensures
        stream_trees(tail) == stream_trees(*stream).drop_first(),
{
    stream.clone().into_iter().skip(1).collect()
}

/// Collects a `proc_macro2::TokenStream` from the trees of two, one after the other.
#[verifier::external_body]
fn chain(first: &TokenStream, second: &TokenStream) -> (both: TokenStream)
    ensures
        stream_trees(both) == stream_trees(*first) + stream_trees(*second),
{
    first.clone().into_iter().chain(second.clone()).collect()
}

/// Calls `syn::parse::ParseBuffer::peek` for `syn::Ident` at the start of a stream.
#[verifier::external_body]
fn peek_ident(stream: &TokenStream) -> (yes: bool)
    ensures
        yes == ident_first(stream_trees(*stream)),
{
    let parser = |input: ParseStream| {
        let yes = input.peek(syn::Ident);
        input.parse::<TokenStream>()?;
        Ok(yes)
    };
    parser.parse2(stream.clone()).unwrap_or(false)
}

/// Calls `syn::parse::ParseBuffer::parse` for `syn::Expr` at the start of a stream, and hands on
/// what it leaves. An error that `syn::parse::Parser::parse2` reports after that is about tokens
/// that were left inside a group.
#[verifier::external_body]
fn parse_expr(stream: &TokenStream) -> (found: Result<(TokenStream, Option<String>), String>)
    ensures
        match expr_first(stream_trees(*stream)) {
            Ok((rest, unexpected)) => {
                &&& found matches Ok(ok)
                &&& stream_trees(ok.0) == rest
                &&& message_view(ok.1) == unexpected
            },
            Err(message) => found is Err && found->Err_0@ == message,
        },
{
    let mut rest = None;
    let parser = |input: ParseStream| {
        input.parse::<syn::Expr>()?;
        rest = Some(input.parse::<TokenStream>()?);
        Ok(())
    };
    let error = parser.parse2(stream.clone()).err().map(|error| error.to_string());
    rest.map(|rest| (rest, error.clone())).ok_or(error.unwrap_or_default())
}

/// Calls `syn::Pat::parse_single` at the start of a stream, and hands on what it leaves. An error
/// that `syn::parse::Parser::parse2` reports after that is about tokens that were left inside a
/// group.
#[verifier::external_body]
fn parse_pattern(stream: &TokenStream) -> (found: Option<(TokenStream, Option<String>)>)
    ensures
        match pattern_first(stream_trees(*stream)) {
            Some((rest, unexpected)) => {
                &&& found matches Some(some)
                &&& stream_trees(some.0) == rest
                &&& message_view(some.1) == unexpected
            },
            None => found is None,
        },
{
    let mut rest = None;
    let parser = |input: ParseStream| {
        syn::Pat::parse_single(input)?;
        rest = Some(input.parse::<TokenStream>()?);
        Ok(())
    };
    let error = parser.parse2(stream.clone()).err().map(|error| error.to_string());
    rest.map(|rest| (rest, error))
}

/// What the grammar of the macro looks at: an entry of the input.
#[derive(Debug, PartialEq, Eq)]
pub enum Token {
    /// A word: an identifier or a keyword.
    Ident(String),
    /// A punctuation character, and whether another one follows it directly.
    Punct(char, bool),
    /// A literal.
    Literal,
    /// A delimited group.
    Group,
    /// The mark of a group without visible delimiters, and how many entries it holds. They follow.
    Open(usize),
}

/// The mathematical form of an entry.
pub enum TokenView {
    Ident(Seq<char>),
    Punct(char, bool),
    Literal,
    Group,
    Open(nat),
}

impl View for Token {
    type V = TokenView;

    open spec fn view(&self) -> TokenView {
        match self {
            Token::Ident(text) => TokenView::Ident(text@),
            Token::Punct(ch, joint) => TokenView::Punct(*ch, *joint),
            Token::Literal => TokenView::Literal,
            Token::Group => TokenView::Group,
            Token::Open(len) => TokenView::Open(*len as nat),
        }
    }
}

/// The mathematical form of a list of entries.
pub open spec fn token_views(tokens: Seq<Token>) -> Seq<TokenView> {
    tokens.map_values(|token: Token| token@)
}

/// The entries of a list of token trees.
pub open spec fn entries(trees: Seq<TreeView>) -> Seq<TokenView>
    decreases trees,
{
    if trees.len() == 0 {
        seq![]
    } else {
        (match trees[0] {
            TreeView::Ident(text) => seq![TokenView::Ident(text)],
            TreeView::Punct(ch, joint) => seq![TokenView::Punct(ch, joint)],
            TreeView::Literal(_) => seq![TokenView::Literal],
            TreeView::Group(delim, inner) => if delim == Delim::Hidden {
                seq![TokenView::Open(entries(inner).len())] + entries(inner)
            } else {
                seq![TokenView::Group]
            },
        }) + entries(trees.drop_first())
    }
}

/// What is left of a list of token trees without its first entry.
pub open spec fn without_first(trees: Seq<TreeView>) -> Seq<TreeView> {
    match trees[0] {
        TreeView::Group(Delim::Hidden, inner) => inner + trees.drop_first(),
        _ => trees.drop_first(),
    }
}

/// What is left of a list of token trees without its first `n` entries.
pub open spec fn without(trees: Seq<TreeView>, n: nat) -> Seq<TreeView>
    decreases n,
{
    if n == 0 {
        trees
    } else {
        without_first(without(trees, (n - 1) as nat))
    }
}

/// The entries of two lists of token trees are those of one and then those of the other.
pub proof fn lemma_entries_add(a: Seq<TreeView>, b: Seq<TreeView>)
    ensures
        entries(a + b) == entries(a) + entries(b),
    decreases a.len(),
{
    if a.len() == 0 {
        assert(a + b =~= b);
        assert(entries(a) + entries(b) =~= entries(b));
    } else {
        assert((a + b).drop_first() =~= a.drop_first() + b);
        lemma_entries_add(a.drop_first(), b);
        assert(entries(a + b) =~= entries(a) + entries(b));
    }
}

proof fn lemma_without_first(trees: Seq<TreeView>)
    requires
        trees.len() > 0,
    ensures
        entries(trees).len() > 0,
        entries(without_first(trees)) == entries(trees).drop_first(),
{
    if let TreeView::Group(Delim::Hidden, inner) = trees[0] {
        lemma_entries_add(inner, trees.drop_first());
    }
    assert(entries(without_first(trees)) =~= entries(trees).drop_first());
}

/// What is left without the first `n` entries has the entries that are left.
pub proof fn lemma_without(trees: Seq<TreeView>, n: nat)
    requires
        n <= entries(trees).len(),
    ensures
        entries(without(trees, n)) == entries(trees).skip(n as int),
    decreases n,
{
    if n == 0 {
        assert(entries(trees).skip(0) =~= entries(trees));
    } else {
        let m = (n - 1) as nat;
        lemma_without(trees, m);
        lemma_without_first(without(trees, m));
        assert(entries(trees).skip(m as int).drop_first() =~= entries(trees).skip(n as int));
    }
}

/// The entries of a stream.
fn flatten(stream: &TokenStream) -> (tokens: Vec<Token>)
    ensures
        token_views(tokens@) == entries(stream_trees(*stream)),
    decreases stream_trees(*stream),
{
    let trees = trees(stream);
    let ghost all = stream_trees(*stream);
    let mut tokens: Vec<Token> = Vec::new();
    proof {
        assert(all.take(0) =~= seq![]);
    }
    for k in 0..trees.len()
        invariant
            all == stream_trees(*stream),
            tree_views(trees@) == all,
            token_views(tokens@) == entries(all.take(k as int)),
    {
        let ghost before = tokens@;
        proof {
            assert(tree_views(trees@)[k as int] == trees@[k as int]@);
            assert(all.take(k + 1) =~= all.take(k as int) + seq![all[k as int]]);
            lemma_entries_add(all.take(k as int), seq![all[k as int]]);
            assert(seq![all[k as int]].drop_first() =~= seq![]);
            assert(entries(Seq::<TreeView>::empty()) =~= seq![]);
        }
        match &trees[k] {
            Tree::Ident(text) => tokens.push(Token::Ident(text.clone())),
            Tree::Punct(ch, joint) => tokens.push(Token::Punct(*ch, *joint)),
            Tree::Literal(_) => tokens.push(Token::Literal),
            Tree::Group(delim, inner) => match delim {
                Delim::Hidden => {
                    proof {
                        assert(all[k as int] == TreeView::Group(*delim, stream_trees(*inner)));
                        assert(decreases_to!(all => all[k as int]));
                    }
                    let mut inner = flatten(inner);
                    let ghost held = inner@;
                    tokens.push(Token::Open(inner.len()));
                    tokens.append(&mut inner);
                    proof {
                        assert(token_views(tokens@) =~= token_views(before) + (seq![
                            TokenView::Open(held.len()),
                        ] + token_views(held)));
                    }
                },
                _ => tokens.push(Token::Group),
            },
        }
        proof {
            assert(token_views(tokens@) =~= entries(all.take(k + 1)));
        }
    }
    proof {
        assert(all.take(all.len() as int) =~= all);
    }
    tokens
}

/// What is left of a stream without its first entry.
fn advance(stream: &TokenStream) -> (rest: TokenStream)
    requires
        stream_trees(*stream).len() > 0,
    ensures
        stream_trees(rest) == without_first(stream_trees(*stream)),
{
    let trees = trees(stream);
    proof {
        assert(tree_views(trees@)[0] == trees@[0]@);
    }
    match &trees[0] {
        Tree::Group(Delim::Hidden, inner) => chain(inner, &tail(stream)),
        _ => tail(stream),
    }
}

/// Something that the Rust parser finds at a position.
#[derive(Debug, PartialEq, Eq)]
pub struct Found {
    /// How many entries are left after it.
    pub left: usize,
    /// The message about the first token that is left over inside one of its groups, if any is.
    pub unexpected: Option<String>,
}

/// The mathematical form of what is found.
pub struct FoundView {
    pub left: nat,
    pub unexpected: Option<Seq<char>>,
}

impl View for Found {
    type V = FoundView;

    open spec fn view(&self) -> FoundView {
        FoundView { left: self.left as nat, unexpected: message_view(self.unexpected) }
    }
}

/// The input of the macro, with what the Rust parser finds at each position.
#[derive(Debug)]
pub struct Source {
    /// The entries.
    pub trees: Vec<Token>,
    /// Whether an identifier that is not a keyword starts at a position.
    pub idents: Vec<bool>,
    /// The expression that starts at a position, or why none starts there.
    pub exprs: Vec<Result<Found, String>>,
    /// The pattern that starts at a position, if one does.
    pub patterns: Vec<Option<Found>>,
}

/// The mathematical form of the input.
#[verifier::ext_equal]
pub struct SourceView {
    pub trees: Seq<TokenView>,
    pub idents: Seq<bool>,
    pub exprs: Seq<Result<FoundView, Seq<char>>>,
    pub patterns: Seq<Option<FoundView>>,
}

/// The mathematical form of what is known of an expression.
pub open spec fn expr_view(found: Result<Found, String>) -> Result<FoundView, Seq<char>> {
    match found {
        Ok(found) => Ok(found@),
        Err(message) => Err(message@),
    }
}

/// The mathematical form of what is known of a pattern.
pub open spec fn pattern_view(found: Option<Found>) -> Option<FoundView> {
    match found {
        Some(found) => Some(found@),
        None => None,
    }
}

impl View for Source {
    type V = SourceView;

    open spec fn view(&self) -> SourceView {
        SourceView {
            trees: token_views(self.trees@),
            idents: self.idents@,
            exprs: self.exprs@.map_values(|found: Result<Found, String>| expr_view(found)),
            patterns: self.patterns@.map_values(|found: Option<Found>| pattern_view(found)),
        }
    }
}

/// What is to be known of the expression that comes first.
pub open spec fn known_expr(trees: Seq<TreeView>) -> Result<FoundView, Seq<char>> {
    match expr_first(trees) {
        Ok((rest, unexpected)) => Ok(FoundView { left: entries(rest).len(), unexpected }),
        Err(message) => Err(message),
    }
}

/// What is to be known of the pattern that comes first.
pub open spec fn known_pattern(trees: Seq<TreeView>) -> Option<FoundView> {
    match pattern_first(trees) {
        Some((rest, unexpected)) => Some(FoundView { left: entries(rest).len(), unexpected }),
        None => None,
    }
}

impl SourceView {
    /// What is to be known of these token trees, at each position and at their end.
    pub open spec fn of(trees: Seq<TreeView>) -> SourceView {
        let n = entries(trees).len() + 1;
        SourceView {
            trees: entries(trees),
            idents: Seq::new(n, |i: int| ident_first(without(trees, i as nat))),
            exprs: Seq::new(n, |i: int| known_expr(without(trees, i as nat))),
            patterns: Seq::new(n, |i: int| known_pattern(without(trees, i as nat))),
        }
    }

    /// The first position from this one on where a token stands that can be seen, or the end.
    pub open spec fn seen(self, at: int) -> int
        decreases self.trees.len() - at,
    {
        if 0 <= at < self.trees.len() && self.trees[at] is Open {
            self.seen(at + 1)
        } else {
            at
        }
    }

    /// The position behind the token that is seen from this one.
    pub open spec fn next(self, at: int) -> int {
        self.seen(at) + 1
    }

    /// Whether a word with this text is seen from a position.
    pub open spec fn word(self, at: int, text: Seq<char>) -> bool {
        let at = self.seen(at);
        0 <= at < self.trees.len() && self.trees[at] == TokenView::Ident(text)
    }

    /// Whether the Rust parser finds an identifier at a position.
    pub open spec fn has_ident(self, at: int) -> bool {
        0 <= at < self.idents.len() && self.idents[at]
    }

    /// Whether an identifier that is not a keyword is seen from a position.
    pub open spec fn ident(self, at: int) -> bool {
        self.has_ident(at) && self.seen(at) < self.trees.len()
    }

    /// Whether a punctuation character is seen from a position, alone or not.
    pub open spec fn punct(self, at: int, ch: char) -> bool {
        let at = self.seen(at);
        &&& 0 <= at < self.trees.len()
        &&& self.trees[at] is Punct
        &&& self.trees[at]->Punct_0 == ch
    }

    /// Whether two punctuation characters are seen from a position, without a space between them.
    pub open spec fn pair(self, at: int, first: char, second: char) -> bool {
        &&& self.punct(at, first)
        &&& self.trees[self.seen(at)]->Punct_1
        &&& self.punct(self.next(at), second)
    }

    /// Where the expression that starts at a position ends, if one starts there.
    pub open spec fn expr_end(self, at: int) -> Option<int> {
        if 0 <= at < self.exprs.len() && self.exprs[at] is Ok && self.exprs[at]->Ok_0.left
            < self.trees.len() - at {
            Some(self.trees.len() - self.exprs[at]->Ok_0.left)
        } else {
            None
        }
    }

    /// Where the pattern that starts at a position ends, if one starts there.
    pub open spec fn pattern_end(self, at: int) -> Option<int> {
        if 0 <= at < self.patterns.len() && self.patterns[at] is Some && self.patterns[at]->0.left
            < self.trees.len() - at {
            Some(self.trees.len() - self.patterns[at]->0.left)
        } else {
            None
        }
    }
}

fn find_expr(stream: &TokenStream) -> (found: Result<Found, String>)
    ensures
        expr_view(found) == known_expr(stream_trees(*stream)),
{
    match parse_expr(stream) {
        Ok((rest, unexpected)) => {
            let left = flatten(&rest);
            proof {
                assert(token_views(left@).len() == left@.len());
            }
            Ok(Found { left: left.len(), unexpected })
        },
        Err(message) => Err(message),
    }
}

fn find_pattern(stream: &TokenStream) -> (found: Option<Found>)
    ensures
        pattern_view(found) == known_pattern(stream_trees(*stream)),
{
    match parse_pattern(stream) {
        Some((rest, unexpected)) => {
            let left = flatten(&rest);
            proof {
                assert(token_views(left@).len() == left@.len());
            }
            Some(Found { left: left.len(), unexpected })
        },
        None => None,
    }
}

impl Source {
    /// Reads the input of the macro.
    pub fn read(stream: &TokenStream) -> (source: Source)
        ensures
            source@ == SourceView::of(stream_trees(*stream)),
    {
        let ghost all = stream_trees(*stream);
        let trees = flatten(stream);
        let end: usize = trees.len();
        let mut idents: Vec<bool> = vec![peek_ident(stream)];
        let mut exprs: Vec<Result<Found, String>> = vec![find_expr(stream)];
        let mut patterns: Vec<Option<Found>> = vec![find_pattern(stream)];
        let mut rest: Option<TokenStream> = None;
        proof {
            assert(token_views(trees@).len() == trees@.len());
        }
        for at in 0..end
            invariant
                all == stream_trees(*stream),
                end == entries(all).len(),
                rest is None ==> at == 0,
                rest is Some ==> stream_trees(rest->0) == without(all, at as nat),
                idents@.len() == at + 1,
                exprs@.len() == at + 1,
                patterns@.len() == at + 1,
                forall|i: int|
                    0 <= i <= at ==> #[trigger] idents@[i] == ident_first(without(all, i as nat)),
                forall|i: int|
                    0 <= i <= at ==> expr_view(#[trigger] exprs@[i]) == known_expr(
                        without(all, i as nat),
                    ),
                forall|i: int|
                    0 <= i <= at ==> pattern_view(#[trigger] patterns@[i]) == known_pattern(
                        without(all, i as nat),
                    ),
        {
            proof {
                lemma_without(all, at as nat);
                assert(entries(all).skip(at as int).len() > 0);
                assert(without(all, (at + 1) as nat) == without_first(without(all, at as nat)));
            }
            let next = match &rest {
                None => advance(stream),
                Some(rest) => advance(rest),
            };
            idents.push(peek_ident(&next));
            exprs.push(find_expr(&next));
            patterns.push(find_pattern(&next));
            rest = Some(next);
        }
        let source = Source { trees, idents, exprs, patterns };
        proof {
            assert(source@ =~= SourceView::of(all));
        }
        source
    }
}

} // verus!
