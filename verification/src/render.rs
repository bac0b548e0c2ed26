//! The expansion as source text.

use vstd::prelude::*;

use crate::expansion::{Name, Piece};

verus! {

/// `String::push` appends one character.
pub assume_specification[ String::push ](string: &mut String, ch: char)
    ensures
        final(string)@ == old(string)@.push(ch),
;

/// A decimal digit.
pub open spec fn digit(n: nat) -> char {
    if n == 0 {
        '0'
    } else if n == 1 {
        '1'
    } else if n == 2 {
        '2'
    } else if n == 3 {
        '3'
    } else if n == 4 {
        '4'
    } else if n == 5 {
        '5'
    } else if n == 6 {
        '6'
    } else if n == 7 {
        '7'
    } else if n == 8 {
        '8'
    } else {
        '9'
    }
}

/// A number in decimal.
pub open spec fn decimal(n: nat) -> Seq<char>
    decreases n,
{
    if n < 10 {
        seq![digit(n)]
    } else {
        decimal(n / 10).push(digit(n % 10))
    }
}

fn push_decimal(text: &mut String, n: usize)
    ensures
        final(text)@ == old(text)@ + decimal(n as nat),
    decreases n,
{
    if n >= 10 {
        push_decimal(text, n / 10);
    }
    let ch: char = match n % 10 {
        0 => '0',
        1 => '1',
        2 => '2',
        3 => '3',
        4 => '4',
        5 => '5',
        6 => '6',
        7 => '7',
        8 => '8',
        _ => '9',
    };
    text.push(ch);
    proof {
        assert(text@ =~= old(text)@ + decimal(n as nat));
    }
}

/// A text with its dots made into underscores.
pub open spec fn without_dots(text: Seq<char>) -> Seq<char> {
    text.map_values(
        |ch: char|
            if ch == '.' {
                '_'
            } else {
                ch
            },
    )
}

/// The name of the module that holds the input type of the bodies: it names the package and its
/// version, so that it is private in practice.
pub open spec fn spec_private_module_name(package: Seq<char>, version: Seq<char>) -> Seq<char> {
    "__"@ + package + "_v"@ + without_dots(version)
}

/// The name of the module that holds the input type of the bodies.
pub fn private_module_name(package: &str, version: &str) -> (name: String)
    ensures
        name@ == spec_private_module_name(package@, version@),
{
    let mut name = "__".to_string();
    name.append(package);
    name.append("_v");
    let ghost start = name@;
    proof {
        assert(start + without_dots(version@.take(0)) =~= start);
    }
    for ch in it: version.chars()
        invariant
            it.seq() == version@,
            it.index() <= version@.len(),
            name@ == start + without_dots(version@.take(it.index() as int)),
    {
        proof {
            assert(start + without_dots(version@.take(it.index() + 1)) =~= (start + without_dots(
                version@.take(it.index() as int),
            )).push(
                if ch == '.' {
                    '_'
                } else {
                    ch
                },
            ));
        }
        name.push(if ch == '.' { '_' } else { ch });
    }
    proof {
        assert(version@.take(version@.len() as int) =~= version@);
    }
    name
}

impl Name {
    /// Whether the name cannot clash with a name of the user: it is resolved at the definition of
    /// the macro. The others name items and their parts, which have no such scope.
    pub open spec fn spec_is_hidden(self) -> bool {
        !(self is PrivateModule || self is TypeParam || self is Variant || self is FinallyVariant
            || self is OutputTemporary)
    }

    /// The text of a name.
    pub open spec fn spec_text(self, module: Seq<char>) -> Seq<char> {
        match self {
            Name::DefinitelyFinishedCount => "definitely_finished_count"@,
            Name::Finished(i) => "arm_"@ + decimal(i as nat) + "_finished"@,
            Name::ShouldRunFinally(i) => "arm_"@ + decimal(i as nat) + "_should_run_finally"@,
            Name::Cancelled(i) => "arm_"@ + decimal(i as nat) + "_cancelled"@,
            Name::Arm(i) => "arm_"@ + decimal(i as nat),
            Name::ArmItem(i) => "arm_"@ + decimal(i as nat) + "_item"@,
            Name::ArmOutput(i) => "arm_"@ + decimal(i as nat) + "_output"@,
            Name::RunBodyFn => "run_body_fn"@,
            Name::RunBodyFuture => "run_body_future"@,
            Name::RunBodyNoReturn => "run_body_no_return"@,
            Name::BodyIsMaybe => "body_is_maybe"@,
            Name::BodyCancelledFlag => "body_cancelled_flag"@,
            Name::Item => "item"@,
            Name::Future => "future"@,
            Name::Stream => "stream"@,
            Name::ItemConsumedFromLiveStream => "item_consumed_from_live_stream"@,
            Name::NextArm => "next_arm"@,
            Name::FirstArm => "first_arm"@,
            Name::PrivateModule => module,
            Name::TypeParam(i) => "T"@ + decimal(i as nat),
            Name::Variant(i) => "Arm"@ + decimal(i as nat),
            Name::FinallyVariant(i) => "Arm"@ + decimal(i as nat) + "Finally"@,
            Name::OutputTemporary => "_output"@,
        }
    }

    /// Whether the name is resolved at the definition of the macro, and so cannot clash with a
    /// name of the user.
    pub fn is_hidden(&self) -> (yes: bool)
        ensures
            yes == self.spec_is_hidden(),
    {
        !matches!(
            self,
            Name::PrivateModule | Name::TypeParam(_) | Name::Variant(_) | Name::FinallyVariant(_)
                | Name::OutputTemporary
        )
    }

    /// The text of the name, given that of the private module.
    pub fn text(&self, module: &str) -> (text: String)
        ensures
            text@ == self.spec_text(module@),
    {
        match self {
            Name::DefinitelyFinishedCount => "definitely_finished_count".to_string(),
            Name::Finished(i) => numbered("arm_", *i, "_finished"),
            Name::ShouldRunFinally(i) => numbered("arm_", *i, "_should_run_finally"),
            Name::Cancelled(i) => numbered("arm_", *i, "_cancelled"),
            Name::Arm(i) => numbered_last("arm_", *i),
            Name::ArmItem(i) => numbered("arm_", *i, "_item"),
            Name::ArmOutput(i) => numbered("arm_", *i, "_output"),
            Name::RunBodyFn => "run_body_fn".to_string(),
            Name::RunBodyFuture => "run_body_future".to_string(),
            Name::RunBodyNoReturn => "run_body_no_return".to_string(),
            Name::BodyIsMaybe => "body_is_maybe".to_string(),
            Name::BodyCancelledFlag => "body_cancelled_flag".to_string(),
            Name::Item => "item".to_string(),
            Name::Future => "future".to_string(),
            Name::Stream => "stream".to_string(),
            Name::ItemConsumedFromLiveStream => "item_consumed_from_live_stream".to_string(),
            Name::NextArm => "next_arm".to_string(),
            Name::FirstArm => "first_arm".to_string(),
            Name::PrivateModule => module.to_string(),
            Name::TypeParam(i) => numbered_last("T", *i),
            Name::Variant(i) => numbered_last("Arm", *i),
            Name::FinallyVariant(i) => numbered("Arm", *i, "Finally"),
            Name::OutputTemporary => "_output".to_string(),
        }
    }
}

fn numbered_last(before: &str, n: usize) -> (text: String)
    ensures
        text@ == before@ + decimal(n as nat),
{
    let mut text = before.to_string();
    push_decimal(&mut text, n);
    text
}

fn numbered(before: &str, n: usize, after: &str) -> (text: String)
    ensures
        text@ == before@ + decimal(n as nat) + after@,
{
    let mut text = numbered_last(before, n);
    text.append(after);
    text
}

/// The text of a piece. Names that are hidden from the user, and what is taken from the input, are
/// marked by what they start with, so that they can be put in their place when the text is read.
pub open spec fn piece_text(piece: Piece, module: Seq<char>) -> Seq<char> {
    match piece {
        Piece::Code(text) => text@,
        Piece::Id(name) => if name.spec_is_hidden() {
            "__hidden_"@ + name.spec_text(module)
        } else {
            name.spec_text(module)
        },
        Piece::Number(n) => decimal(n as nat) + "usize"@,
        Piece::Input(region) => "__input_"@ + decimal(region.start as nat) + "_"@ + decimal(
            region.end as nat,
        ),
        Piece::Tree(at) => "__tree_"@ + decimal(at as nat),
    }
}

/// The text of pieces, each followed by a space.
pub open spec fn pieces_text(pieces: Seq<Piece>, module: Seq<char>) -> Seq<char>
    decreases pieces.len(),
{
    if pieces.len() == 0 {
        seq![]
    } else {
        pieces_text(pieces.drop_last(), module) + piece_text(pieces.last(), module) + " "@
    }
}

fn append_piece(text: &mut String, piece: &Piece, module: &str)
    ensures
        final(text)@ == old(text)@ + piece_text(*piece, module@),
{
    match piece {
        Piece::Code(code) => text.append(code),
        Piece::Id(name) => {
            let name_text = name.text(module);
            if name.is_hidden() {
                text.append("__hidden_");
                text.append(name_text.as_str());
                proof {
                    assert(text@ =~= old(text)@ + ("__hidden_"@ + name_text@));
                }
            } else {
                text.append(name_text.as_str());
            }
        },
        Piece::Number(n) => {
            push_decimal(text, *n);
            text.append("usize");
            proof {
                assert(text@ =~= old(text)@ + (decimal(*n as nat) + "usize"@));
            }
        },
        Piece::Input(region) => {
            text.append("__input_");
            push_decimal(text, region.start);
            text.append("_");
            push_decimal(text, region.end);
            proof {
                assert(text@ =~= old(text)@ + ("__input_"@ + decimal(region.start as nat) + "_"@
                    + decimal(region.end as nat)));
            }
        },
        Piece::Tree(at) => {
            text.append("__tree_");
            push_decimal(text, *at);
            proof {
                assert(text@ =~= old(text)@ + ("__tree_"@ + decimal(*at as nat)));
            }
        },
    }
}

/// The expansion as source text, given the name of the private module.
pub fn render(pieces: &Vec<Piece>, module: &str) -> (text: String)
    ensures
        text@ == pieces_text(pieces@, module@),
{
    let mut text = String::new();
    for i in 0..pieces.len()
        invariant
            text@ == pieces_text(pieces@.take(i as int), module@),
    {
        append_piece(&mut text, &pieces[i], module);
        text.append(" ");
        proof {
            assert(pieces@.take(i + 1).drop_last() =~= pieces@.take(i as int));
        }
    }
    proof {
        assert(pieces@.take(pieces@.len() as int) =~= pieces@);
    }
    text
}

/// Whether the character is a decimal digit.
pub open spec fn is_digit(ch: char) -> bool {
    '0' <= ch <= '9'
}

proof fn lemma_decimal_digits(n: nat)
    ensures
        decimal(n).len() >= 1,
        forall|k: int| 0 <= k < decimal(n).len() ==> is_digit(#[trigger] decimal(n)[k]),
    decreases n,
{
    if n >= 10 {
        lemma_decimal_digits(n / 10);
    }
}

proof fn lemma_decimal_injective(a: nat, b: nat)
    requires
        decimal(a) == decimal(b),
    ensures
        a == b,
    decreases a,
{
    if a >= 10 {
        lemma_decimal_digits(a / 10);
        assert(decimal(a).drop_last() =~= decimal(a / 10));
    }
    if b >= 10 {
        lemma_decimal_digits(b / 10);
        assert(decimal(b).drop_last() =~= decimal(b / 10));
    }
    assert(decimal(a).last() == digit(a % 10));
    assert(decimal(b).last() == digit(b % 10));
    if a >= 10 && b >= 10 {
        lemma_decimal_injective(a / 10, b / 10);
    }
}

/// A text that holds one number shows where the number starts and ends.
proof fn lemma_number_shows(
    before: Seq<char>,
    a: nat,
    after_a: Seq<char>,
    b: nat,
    after_b: Seq<char>,
)
    requires
        before + decimal(a) + after_a == before + decimal(b) + after_b,
        after_a.len() > 0 ==> !is_digit(after_a[0]),
        after_b.len() > 0 ==> !is_digit(after_b[0]),
    ensures
        a == b,
        after_a == after_b,
{
    let text_a = before + decimal(a) + after_a;
    let text_b = before + decimal(b) + after_b;
    lemma_decimal_digits(a);
    lemma_decimal_digits(b);
    if decimal(a).len() < decimal(b).len() {
        let k = decimal(a).len() as int;
        assert(text_a[before.len() + k] == after_a[0]);
        assert(text_b[before.len() + k] == decimal(b)[k]);
    }
    if decimal(b).len() < decimal(a).len() {
        let k = decimal(b).len() as int;
        assert(text_b[before.len() + k] == after_b[0]);
        assert(text_a[before.len() + k] == decimal(a)[k]);
    }
    assert forall|k: int| 0 <= k < decimal(a).len() implies decimal(a)[k] == decimal(b)[k] by {
        assert(text_a[before.len() + k] == decimal(a)[k]);
        assert(text_b[before.len() + k] == decimal(b)[k]);
    }
    assert(decimal(a) =~= decimal(b));
    lemma_decimal_injective(a, b);
    assert(text_a.len() == before.len() + decimal(a).len() + after_a.len());
    assert(text_b.len() == before.len() + decimal(b).len() + after_b.len());
    assert forall|k: int| 0 <= k < after_a.len() implies after_a[k] == after_b[k] by {
        let at = before.len() + decimal(a).len() + k;
        assert(text_a[at] == after_a[k]);
        assert(text_b[at] == after_b[k]);
    }
    assert(after_a =~= after_b);
}

/// What follows the number of the arm in the name of a variable.
spec fn suffix(name: Name) -> Seq<char> {
    match name {
        Name::Finished(_) => "_finished"@,
        Name::ShouldRunFinally(_) => "_should_run_finally"@,
        Name::Cancelled(_) => "_cancelled"@,
        Name::ArmItem(_) => "_item"@,
        Name::ArmOutput(_) => "_output"@,
        Name::FinallyVariant(_) => "Finally"@,
        _ => ""@,
    }
}

/// The number of the arm in a name that has one.
spec fn number(name: Name) -> Option<usize> {
    match name {
        Name::Finished(i) | Name::ShouldRunFinally(i) | Name::Cancelled(i) | Name::Arm(i)
        | Name::ArmItem(i) | Name::ArmOutput(i) | Name::TypeParam(i) | Name::Variant(i)
        | Name::FinallyVariant(i) => Some(i),
        _ => None,
    }
}

/// What comes before the number of the arm in a name that has one.
spec fn prefix(name: Name) -> Seq<char> {
    match name {
        Name::TypeParam(_) => "T"@,
        Name::Variant(_) | Name::FinallyVariant(_) => "Arm"@,
        _ => "arm_"@,
    }
}

proof fn lemma_numbered_text(name: Name, module: Seq<char>)
    requires
        number(name) is Some,
    ensures
        name.spec_text(module) == prefix(name) + decimal(number(name)->0 as nat) + suffix(name),
        suffix(name).len() > 0 ==> !is_digit(suffix(name)[0]),
        prefix(name).len() > 0,
        name.spec_text(module).len() > 0,
        name.spec_text(module)[0] == prefix(name)[0],
{
    reveal_strlit("");
    reveal_strlit("_finished");
    reveal_strlit("_should_run_finally");
    reveal_strlit("_cancelled");
    reveal_strlit("_item");
    reveal_strlit("_output");
    reveal_strlit("Finally");
    reveal_strlit("T");
    reveal_strlit("Arm");
    reveal_strlit("arm_");
    let text = prefix(name) + decimal(number(name)->0 as nat);
    assert(text + ""@ =~= text);
}

/// Generated names do not clash: two names of the same kind, resolved at the definition of the
/// macro or not, have different texts, whatever package and version the private module is named
/// for.
pub proof fn names_do_not_clash(a: Name, b: Name, package: Seq<char>, version: Seq<char>)
    requires
        a != b,
        a.spec_is_hidden() == b.spec_is_hidden(),
    ensures
        a.spec_text(spec_private_module_name(package, version)) != b.spec_text(
            spec_private_module_name(package, version),
        ),
{
    let module = spec_private_module_name(package, version);
    reveal_strlit("");
    reveal_strlit("_finished");
    reveal_strlit("_should_run_finally");
    reveal_strlit("_cancelled");
    reveal_strlit("_item");
    reveal_strlit("_output");
    reveal_strlit("Finally");
    reveal_strlit("T");
    reveal_strlit("Arm");
    reveal_strlit("arm_");
    if number(a) is Some {
        lemma_numbered_text(a, module);
    }
    if number(b) is Some {
        lemma_numbered_text(b, module);
    }
    if number(a) is Some && number(b) is Some {
        if a.spec_text(module) == b.spec_text(module) {
            assert(prefix(a)[0] == prefix(b)[0]);
            assert(prefix(a) == prefix(b));
            lemma_number_shows(
                prefix(a),
                number(a)->0 as nat,
                suffix(a),
                number(b)->0 as nat,
                suffix(b),
            );
            assert(suffix(a).len() == suffix(b).len());
        }
    } else {
        reveal_strlit("__");
        reveal_strlit("definitely_finished_count");
        reveal_strlit("run_body_fn");
        reveal_strlit("run_body_future");
        reveal_strlit("run_body_no_return");
        reveal_strlit("body_is_maybe");
        reveal_strlit("body_cancelled_flag");
        reveal_strlit("item");
        reveal_strlit("future");
        reveal_strlit("stream");
        reveal_strlit("item_consumed_from_live_stream");
        reveal_strlit("next_arm");
        reveal_strlit("first_arm");
        assert(module[0] == '_' && module[1] == '_');
        if number(a) is None && number(b) is None {
            assert(a.spec_text(module).len() != b.spec_text(module).len()
                || a.spec_text(module)[0] != b.spec_text(module)[0]
                || a.spec_text(module)[1] != b.spec_text(module)[1]
                || a.spec_text(module)[5] != b.spec_text(module)[5]);
        } else {
            assert(a.spec_text(module)[0] != b.spec_text(module)[0]);
        }
    }
}

/// Whether a piece becomes a marked word, which is to be replaced by what it stands for.
pub open spec fn is_marked(piece: Piece) -> bool {
    match piece {
        Piece::Id(name) => name.spec_is_hidden(),
        Piece::Input(_) | Piece::Tree(_) => true,
        _ => false,
    }
}

/// Marked words do not clash: two pieces that differ have different words.
pub proof fn marks_do_not_clash(a: Piece, b: Piece, module: Seq<char>)
    requires
        a != b,
        is_marked(a),
        is_marked(b),
    ensures
        piece_text(a, module) != piece_text(b, module),
{
    reveal_strlit("__hidden_");
    reveal_strlit("__input_");
    reveal_strlit("__tree_");
    reveal_strlit("_");
    let (x, y) = (piece_text(a, module), piece_text(b, module));
    if x == y {
        assert(x[2] == y[2]);
        match (a, b) {
            (Piece::Id(p), Piece::Id(q)) => {
                let named = spec_private_module_name(seq![], seq![]);
                names_do_not_clash(p, q, seq![], seq![]);
                let (s, t) = (p.spec_text(module), q.spec_text(module));
                assert(s == p.spec_text(named) && t == q.spec_text(named));
                assert(s =~= ("__hidden_"@ + s).skip(9));
                assert(t =~= ("__hidden_"@ + t).skip(9));
            },
            (Piece::Input(p), Piece::Input(q)) => {
                let (s, t) = ("_"@ + decimal(p.end as nat), "_"@ + decimal(q.end as nat));
                assert(x =~= "__input_"@ + decimal(p.start as nat) + s);
                assert(y =~= "__input_"@ + decimal(q.start as nat) + t);
                lemma_number_shows("__input_"@, p.start as nat, s, q.start as nat, t);
                assert(decimal(p.end as nat) =~= s.skip(1));
                assert(decimal(q.end as nat) =~= t.skip(1));
                lemma_decimal_injective(p.end as nat, q.end as nat);
            },
            (Piece::Tree(p), Piece::Tree(q)) => {
                let none = Seq::<char>::empty();
                assert(x =~= "__tree_"@ + decimal(p as nat) + none);
                assert(y =~= "__tree_"@ + decimal(q as nat) + none);
                lemma_number_shows("__tree_"@, p as nat, none, q as nat, none);
            },
            _ => {},
        }
    }
}

/// Which piece a word of the text stands for, if it is the word of a marked piece.
pub fn meaning(pieces: &Vec<Piece>, module: &str, word: &str) -> (found: Option<Piece>)
    ensures
        match found {
            Some(piece) => {
                &&& pieces@.contains(piece)
                &&& is_marked(piece)
                &&& piece_text(piece, module@) == word@
                &&& forall|k: int|
                    0 <= k < pieces@.len() && is_marked(#[trigger] pieces@[k]) && piece_text(
                        pieces@[k],
                        module@,
                    ) == word@ ==> pieces@[k] == piece
            },
            None => forall|k: int|
                0 <= k < pieces@.len() && is_marked(#[trigger] pieces@[k]) ==> piece_text(
                    pieces@[k],
                    module@,
                ) != word@,
        },
{
    let sought = word.to_string();
    for i in 0..pieces.len()
        invariant
            sought@ == word@,
            forall|k: int|
                0 <= k < i && is_marked(#[trigger] pieces@[k]) ==> piece_text(pieces@[k], module@)
                    != word@,
    {
        let piece: Piece = pieces[i];
        let marked: bool = match piece {
            Piece::Id(name) => name.is_hidden(),
            Piece::Input(_) | Piece::Tree(_) => true,
            _ => false,
        };
        if marked {
            let mut text = String::new();
            append_piece(&mut text, &piece, module);
            proof {
                assert(text@ =~= piece_text(piece, module@));
            }
            if text == sought {
                proof {
                    assert forall|k: int|
                        0 <= k < pieces@.len() && is_marked(#[trigger] pieces@[k]) && piece_text(
                            pieces@[k],
                            module@,
                        ) == word@ implies pieces@[k] == piece by {
                        if pieces@[k] != piece {
                            marks_do_not_clash(pieces@[k], piece, module@);
                        }
                    }
                }
                return Some(piece);
            }
        }
    }
    None
}

} // verus!
