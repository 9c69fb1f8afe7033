//! What the written form of an expression determines: whoever reads it
//! back gets an expression of the same meaning.

use vstd::prelude::*;
use crate::conversion::{all_digits, is_digit, lemma_decimal_is_read_back};
use crate::expression::op::Opcode;
use crate::expression::{escape_char, escaped, Expr, Literal};
use crate::text::{decimal, signed_decimal};
use crate::type_def::TypeDef;
use crate::value::ValueView;

verus! {

/// The character can start a name: a letter or `_`.
pub open spec fn is_name_start(c: char) -> bool {
    let code = c as u32;
    0x41 <= code <= 0x5A || 0x61 <= code <= 0x7A || code == 0x5F
}

/// The character can stand in a name or a number: a letter, a digit or
/// `_`.
pub open spec fn is_word_char(c: char) -> bool {
    is_name_start(c) || is_digit(c)
}

/// Every character of the text can stand in a name or a number.
pub open spec fn is_word(text: Seq<char>) -> bool {
    forall|i: int| 0 <= i < text.len() ==> is_word_char(#[trigger] text[i])
}

/// The text is a name: letters, digits and `_`, no digit first, and none of
/// the words that are written for values.
pub open spec fn is_identifier(name: Seq<char>) -> bool {
    &&& name.len() > 0
    &&& is_name_start(name[0])
    &&& is_word(name)
    &&& name != "true"@
    &&& name != "false"@
    &&& name != "null"@
}

/// What follows a name or a number does not continue it: it is empty or
/// starts with a character that can stand in neither.
pub open spec fn ends_cleanly(rest: Seq<char>) -> bool {
    rest.len() == 0 || !is_word_char(rest[0])
}

/// Where two words are each followed by something that does not continue
/// them, and the two texts are the same, the words are the same and so
/// is what follows.
pub proof fn lemma_words_end(a: Seq<char>, b: Seq<char>, rest_a: Seq<char>, rest_b: Seq<char>)
    requires
        is_word(a),
        is_word(b),
        ends_cleanly(rest_a),
        ends_cleanly(rest_b),
        a + rest_a == b + rest_b,
    ensures
        a == b,
        rest_a == rest_b,
{
    let whole = a + rest_a;
    assert(whole.len() == a.len() + rest_a.len());
    assert(whole.len() == b.len() + rest_b.len());
    if a.len() < b.len() {
        assert(whole[a.len() as int] == rest_a[0]);
        assert((b + rest_b)[a.len() as int] == b[a.len() as int]);
        assert(is_word_char(b[a.len() as int]));
    } else if b.len() < a.len() {
        assert((b + rest_b)[b.len() as int] == rest_b[0]);
        assert(whole[b.len() as int] == a[b.len() as int]);
        assert(is_word_char(a[b.len() as int]));
    } else {
        assert(a =~= whole.subrange(0, a.len() as int));
        assert(b =~= (b + rest_b).subrange(0, b.len() as int));
        assert(rest_a =~= whole.subrange(a.len() as int, whole.len() as int));
        assert(rest_b =~= (b + rest_b).subrange(b.len() as int, whole.len() as int));
    }
}

/// A quoted text starts with what stands for its first character.
pub proof fn lemma_escaped_front(text: Seq<char>)
    requires
        text.len() > 0,
    ensures
        escaped(text) == escape_char(text[0]) + escaped(text.skip(1)),
    decreases text.len(),
{
    if text.len() == 1 {
        assert(text.drop_last() =~= Seq::<char>::empty());
        assert(text.skip(1) =~= Seq::<char>::empty());
        assert(escaped(text) =~= escape_char(text[0]) + escaped(text.skip(1)));
    } else {
        let front = text.drop_last();
        lemma_escaped_front(front);
        assert(front.skip(1) =~= text.skip(1).drop_last());
        assert(text.skip(1).last() == text.last());
        assert(escaped(text) =~= escape_char(text[0]) + escaped(text.skip(1)));
    }
}

/// Where two quoted texts are each followed by the closing quote and more,
/// and the whole is the same, the texts are the same and so is what
/// follows: the first quote that is not behind a backslash closes.
pub proof fn lemma_escaped_ends(a: Seq<char>, b: Seq<char>, rest_a: Seq<char>, rest_b: Seq<char>)
    requires
        escaped(a) + seq!['"'] + rest_a == escaped(b) + seq!['"'] + rest_b,
    ensures
        a == b,
        rest_a == rest_b,
    decreases a.len() + b.len(),
{
    let whole_a = escaped(a) + seq!['"'] + rest_a;
    let whole_b = escaped(b) + seq!['"'] + rest_b;
    if a.len() == 0 && b.len() == 0 {
        assert(rest_a =~= whole_a.skip(1));
        assert(rest_b =~= whole_b.skip(1));
        assert(a =~= b);
    } else if a.len() == 0 {
        lemma_escaped_front(b);
        assert(whole_a[0] == '"');
        assert(whole_b[0] == escape_char(b[0])[0]);
    } else if b.len() == 0 {
        lemma_escaped_front(a);
        assert(whole_b[0] == '"');
        assert(whole_a[0] == escape_char(a[0])[0]);
    } else {
        lemma_escaped_front(a);
        lemma_escaped_front(b);
        let head_a = escape_char(a[0]);
        let head_b = escape_char(b[0]);
        assert(whole_a[0] == head_a[0]);
        assert(whole_b[0] == head_b[0]);
        if head_a.len() == 2 {
            assert(whole_a[1] == head_a[1]);
        }
        if head_b.len() == 2 {
            assert(whole_b[1] == head_b[1]);
        }
        if head_a.len() == 1 && head_b.len() == 2 {
            // a plain character is no backslash
            assert(false);
        }
        if head_a.len() == 2 && head_b.len() == 1 {
            assert(false);
        }
        assert(a[0] == b[0]);
        let tail_a = escaped(a.skip(1)) + seq!['"'] + rest_a;
        let tail_b = escaped(b.skip(1)) + seq!['"'] + rest_b;
        assert(tail_a =~= whole_a.skip(head_a.len() as int));
        assert(tail_b =~= whole_b.skip(head_b.len() as int));
        lemma_escaped_ends(a.skip(1), b.skip(1), rest_a, rest_b);
        assert(a =~= seq![a[0]] + a.skip(1));
        assert(b =~= seq![b[0]] + b.skip(1));
    }
}

/// Numerals are equal only where the integers are.
pub proof fn lemma_numeral_is_one_to_one(a: i64, b: i64)
    requires
        signed_decimal(a as int) == signed_decimal(b as int),
    ensures
        a == b,
{
    let magnitude_a = if a < 0 {
        (-a) as nat
    } else {
        a as nat
    };
    let magnitude_b = if b < 0 {
        (-b) as nat
    } else {
        b as nat
    };
    lemma_decimal_is_read_back(magnitude_a);
    lemma_decimal_is_read_back(magnitude_b);
    assert(is_digit(decimal(magnitude_a)[0]));
    assert(is_digit(decimal(magnitude_b)[0]));
    if a < 0 {
        assert(signed_decimal(a as int)[0] == '-');
        assert(signed_decimal(a as int).skip(1) =~= decimal(magnitude_a));
    }
    if b < 0 {
        assert(signed_decimal(b as int)[0] == '-');
        assert(signed_decimal(b as int).skip(1) =~= decimal(magnitude_b));
    }
}

/// A numeral is made of digits, with a minus sign before them where the
/// integer is negative.
pub proof fn lemma_numeral_shape(n: i64)
    ensures
        n < 0 ==> signed_decimal(n as int) == seq!['-'] + decimal((-n) as nat) && is_word(
            decimal((-n) as nat),
        ) && decimal((-n) as nat).len() > 0,
        n >= 0 ==> is_word(signed_decimal(n as int)) && signed_decimal(n as int).len() > 0
            && is_digit(signed_decimal(n as int)[0]),
{
    if n < 0 {
        let digits = decimal((-n) as nat);
        lemma_decimal_is_read_back((-n) as nat);
        assert forall|i: int| 0 <= i < digits.len() implies is_word_char(#[trigger] digits[i]) by {
            assert(is_digit(digits[i]));
        }
    } else {
        let digits = decimal(n as nat);
        lemma_decimal_is_read_back(n as nat);
        assert(is_digit(digits[0]));
        assert forall|i: int| 0 <= i < digits.len() implies is_word_char(#[trigger] digits[i]) by {
            assert(is_digit(digits[i]));
        }
    }
}

/// The three words that are written for values are words, and differ.
pub proof fn lemma_value_words()
    ensures
        is_word("true"@) && is_word("false"@) && is_word("null"@),
        is_name_start("true"@[0]) && is_name_start("false"@[0]) && is_name_start("null"@[0]),
        "true"@ != "false"@ && "true"@ != "null"@ && "false"@ != "null"@,
        "true"@.len() > 0 && "false"@.len() > 0 && "null"@.len() > 0,
{
    reveal_strlit("true");
    reveal_strlit("false");
    reveal_strlit("null");
    assert("true"@[0] == 't' && "false"@[0] == 'f' && "null"@[0] == 'n');
}

/// A literal other than a string or an integer is written as one of the
/// three words for values.
pub open spec fn is_value_word(literal: Literal) -> bool {
    literal is Boolean || literal is Null
}

/// Where two literals are each followed by something that does not
/// continue them, and the two texts are the same, the literals stand for
/// the same value and what follows is the same.
pub proof fn lemma_literals_end(a: Literal, b: Literal, rest_a: Seq<char>, rest_b: Seq<char>)
    requires
        ends_cleanly(rest_a),
        ends_cleanly(rest_b),
        a.text() + rest_a == b.text() + rest_b,
    ensures
        a.value() == b.value(),
        rest_a == rest_b,
{
    lemma_value_words();
    lemma_literal_start(a);
    lemma_literal_start(b);
    let whole_a = a.text() + rest_a;
    let whole_b = b.text() + rest_b;
    assert(whole_a[0] == a.text()[0]);
    assert(whole_b[0] == b.text()[0]);
    match (a, b) {
        (Literal::String(s), Literal::String(t)) => {
            assert(escaped(s@) + seq!['"'] + rest_a =~= whole_a.skip(1));
            assert(escaped(t@) + seq!['"'] + rest_b =~= whole_b.skip(1));
            lemma_escaped_ends(s@, t@, rest_a, rest_b);
        },
        (Literal::Integer(i), Literal::Integer(j)) => {
            lemma_numeral_shape(i);
            lemma_numeral_shape(j);
            if i < 0 {
                assert(a.text()[0] == '-');
                assert(j < 0);
                assert(decimal((-i) as nat) + rest_a =~= whole_a.skip(1));
                assert(decimal((-j) as nat) + rest_b =~= whole_b.skip(1));
                lemma_words_end(decimal((-i) as nat), decimal((-j) as nat), rest_a, rest_b);
            } else {
                assert(j >= 0);
                lemma_words_end(a.text(), b.text(), rest_a, rest_b);
            }
            lemma_numeral_is_one_to_one(i, j);
        },
        (Literal::String(_), _) => {},
        (_, Literal::String(_)) => {},
        (Literal::Integer(i), _) => {
            lemma_numeral_shape(i);
        },
        (_, Literal::Integer(j)) => {
            lemma_numeral_shape(j);
        },
        _ => {
            lemma_words_end(a.text(), b.text(), rest_a, rest_b);
        },
    }
}

/// How a literal starts: a quote before a string, a sign or a digit before
/// an integer; and the other literals are the three words for values.
pub proof fn lemma_literal_start(literal: Literal)
    ensures
        literal.text().len() > 0,
        literal is String ==> literal.text()[0] == '"',
        literal is Integer ==> literal.text()[0] == '-' || is_digit(literal.text()[0]),
        literal is Boolean ==> literal.text() == "true"@ || literal.text() == "false"@,
        literal is Null ==> literal.text() == "null"@,
        is_value_word(literal) ==> is_name_start(literal.text()[0]) && is_word(literal.text()),
{
    lemma_value_words();
    match literal {
        Literal::Integer(i) => {
            lemma_numeral_shape(i);
        },
        _ => {},
    }
}

impl Expr {
    /// The names in the expression are names: what is written for a
    /// variable or a field cannot be taken for anything else.
    pub open spec fn writable(self) -> bool
        decreases self,
        via Self::operand_is_smaller_writable
    {
        match self {
            Expr::Literal(_) => true,
            Expr::Query(field) => is_identifier(field@),
            Expr::Variable(ident) => is_identifier(ident@),
            Expr::Not(not) => not.inner().writable(),
            Expr::Op(op) => op.lhs().writable() && op.rhs().writable(),
        }
    }

    #[via_fn]
    proof fn operand_is_smaller_writable(self) {
        match self {
            Expr::Not(not) => not.lemma_inner_is_smaller(),
            Expr::Op(op) => op.lemma_operands_are_smaller(),
            _ => {},
        }
    }

    /// The two expressions are built alike, of the same names and the
    /// same values.
    pub open spec fn alike(self, other: Expr) -> bool
        decreases self,
        via Self::operand_is_smaller_alike
    {
        match self {
            Expr::Literal(literal) => other is Literal && literal.value()
                == other->Literal_0.value(),
            Expr::Query(field) => other is Query && field@ == other->Query_0@,
            Expr::Variable(ident) => other is Variable && ident@ == other->Variable_0@,
            Expr::Not(not) => other is Not && not.inner().alike(other->Not_0.inner()),
            Expr::Op(op) => {
                &&& other is Op
                &&& op.opcode() == other->Op_0.opcode()
                &&& op.lhs().alike(other->Op_0.lhs())
                &&& op.rhs().alike(other->Op_0.rhs())
            },
        }
    }

    #[via_fn]
    proof fn operand_is_smaller_alike(self, other: Expr) {
        match self {
            Expr::Not(not) => not.lemma_inner_is_smaller(),
            Expr::Op(op) => op.lemma_operands_are_smaller(),
            _ => {},
        }
    }

    /// How an expression starts: `!` before a negation, `(` before an
    /// operation, `.` before a field, the start of a name before a
    /// variable.
    pub proof fn lemma_start(self)
        requires
            self.writable(),
        ensures
            self.format_spec().len() > 0,
            self is Not <==> self.format_spec()[0] == '!',
            self is Op <==> self.format_spec()[0] == '(',
            self is Query <==> self.format_spec()[0] == '.',
            self is Variable ==> is_identifier(self.format_spec()),
    {
        match self {
            Expr::Literal(literal) => {
                lemma_literal_start(literal);
            },
            _ => {},
        }
    }

    /// Where two expressions are each followed by something that does not
    /// continue them, and the two texts are the same, the expressions are
    /// built alike and what follows is the same.
    pub proof fn lemma_written_alike_before(
        self,
        other: Expr,
        rest: Seq<char>,
        other_rest: Seq<char>,
    )
        requires
            self.writable(),
            other.writable(),
            ends_cleanly(rest),
            ends_cleanly(other_rest),
            self.format_spec() + rest == other.format_spec() + other_rest,
        ensures
            self.alike(other),
            rest == other_rest,
        decreases self, 1int,
    {
        match self {
            Expr::Not(_) => self.lemma_negations_alike_before(other, rest, other_rest),
            Expr::Op(_) => self.lemma_operations_alike_before(other, rest, other_rest),
            _ => self.lemma_leaves_alike_before(other, rest, other_rest),
        }
    }

    /// The same of an expression without operands.
    proof fn lemma_leaves_alike_before(self, other: Expr, rest: Seq<char>, other_rest: Seq<char>)
        requires
            self.is_leaf(),
            self.writable(),
            other.writable(),
            ends_cleanly(rest),
            ends_cleanly(other_rest),
            self.format_spec() + rest == other.format_spec() + other_rest,
        ensures
            self.alike(other),
            rest == other_rest,
    {
        lemma_value_words();
        self.lemma_start();
        other.lemma_start();
        let text = self.format_spec();
        let other_text = other.format_spec();
        let whole = text + rest;
        let other_whole = other_text + other_rest;
        assert(whole[0] == text[0]);
        assert(other_whole[0] == other_text[0]);
        match self {
            Expr::Literal(literal) => {
                lemma_literal_start(literal);
                match other {
                    Expr::Literal(second) => {
                        lemma_literals_end(literal, second, rest, other_rest);
                    },
                    Expr::Variable(ident) => {
                        if is_value_word(literal) {
                            lemma_words_end(text, other_text, rest, other_rest);
                        }
                    },
                    _ => {},
                }
            },
            Expr::Query(field) => {
                let second = other->Query_0;
                assert(field@ + rest =~= whole.skip(1));
                assert(second@ + other_rest =~= other_whole.skip(1));
                lemma_words_end(field@, second@, rest, other_rest);
            },
            Expr::Variable(ident) => {
                match other {
                    Expr::Literal(second) => {
                        lemma_literal_start(second);
                        if is_value_word(second) {
                            lemma_words_end(text, other_text, rest, other_rest);
                        }
                    },
                    Expr::Variable(second) => {
                        lemma_words_end(text, other_text, rest, other_rest);
                    },
                    _ => {},
                }
            },
            _ => {},
        }
    }

    /// The same of a negation.
    proof fn lemma_negations_alike_before(
        self,
        other: Expr,
        rest: Seq<char>,
        other_rest: Seq<char>,
    )
        requires
            self is Not,
            self.writable(),
            other.writable(),
            ends_cleanly(rest),
            ends_cleanly(other_rest),
            self.format_spec() + rest == other.format_spec() + other_rest,
        ensures
            self.alike(other),
            rest == other_rest,
        decreases self, 0int,
    {
        self.lemma_start();
        other.lemma_start();
        let whole = self.format_spec() + rest;
        let other_whole = other.format_spec() + other_rest;
        assert(whole[0] == self.format_spec()[0]);
        assert(other_whole[0] == other.format_spec()[0]);
        let not = self->Not_0;
        let second = other->Not_0;
        not.lemma_inner_is_smaller();
        assert(not.inner().format_spec() + rest =~= whole.skip(1));
        assert(second.inner().format_spec() + other_rest =~= other_whole.skip(1));
        not.inner().lemma_written_alike_before(second.inner(), rest, other_rest);
    }

    /// The same of a logical operation.
    proof fn lemma_operations_alike_before(
        self,
        other: Expr,
        rest: Seq<char>,
        other_rest: Seq<char>,
    )
        requires
            self is Op,
            self.writable(),
            other.writable(),
            ends_cleanly(rest),
            ends_cleanly(other_rest),
            self.format_spec() + rest == other.format_spec() + other_rest,
        ensures
            self.alike(other),
            rest == other_rest,
        decreases self, 0int,
    {
        self.lemma_start();
        other.lemma_start();
        let whole = self.format_spec() + rest;
        let other_whole = other.format_spec() + other_rest;
        assert(whole[0] == self.format_spec()[0]);
        assert(other_whole[0] == other.format_spec()[0]);
        let op = self->Op_0;
        let second = other->Op_0;
        op.lemma_operands_are_smaller();
        reveal_strlit("&&");
        reveal_strlit("||");
        let closing = seq![')'] + rest;
        let other_closing = seq![')'] + other_rest;
        let tail = op.rhs().format_spec() + closing;
        let other_tail = second.rhs().format_spec() + other_closing;
        let middle = seq![' '] + op.opcode().text() + seq![' '] + tail;
        let other_middle = seq![' '] + second.opcode().text() + seq![' '] + other_tail;
        assert(op.lhs().format_spec() + middle =~= whole.skip(1));
        assert(second.lhs().format_spec() + other_middle =~= other_whole.skip(1));
        assert(middle[0] == ' ' && other_middle[0] == ' ');
        op.lhs().lemma_written_alike_before(second.lhs(), middle, other_middle);
        assert(middle[1] == op.opcode().text()[0]);
        assert(other_middle[1] == second.opcode().text()[0]);
        assert(op.opcode() == second.opcode());
        assert(tail =~= middle.skip(4));
        assert(other_tail =~= other_middle.skip(4));
        assert(closing[0] == ')' && other_closing[0] == ')');
        op.rhs().lemma_written_alike_before(second.rhs(), closing, other_closing);
        assert(rest =~= closing.skip(1));
        assert(other_rest =~= other_closing.skip(1));
    }

    /// Expressions that are written alike are built alike.
    pub proof fn lemma_written_alike(self, other: Expr)
        requires
            self.writable(),
            other.writable(),
            self.format_spec() == other.format_spec(),
        ensures
            self.alike(other),
    {
        let none = Seq::<char>::empty();
        assert(self.format_spec() + none =~= self.format_spec());
        assert(other.format_spec() + none =~= other.format_spec());
        self.lemma_written_alike_before(other, none, none);
    }

    /// Expressions that are built alike have the same static type, are
    /// written alike and evaluate to the same.
    pub proof fn lemma_alike_means_the_same(
        self,
        other: Expr,
        local: Map<Seq<char>, TypeDef>,
        external: Map<Seq<char>, TypeDef>,
        target: Map<Seq<char>, ValueView>,
        variables: Map<Seq<char>, ValueView>,
    )
        requires
            self.alike(other),
        ensures
            self.type_def_spec(local, external) == other.type_def_spec(local, external),
            self.resolve_spec(target, variables) == other.resolve_spec(target, variables),
            self.well_typed(local, external) == other.well_typed(local, external),
            self.format_spec() == other.format_spec(),
        decreases self,
    {
        match self {
            Expr::Not(not) => {
                not.lemma_inner_is_smaller();
                not.inner().lemma_alike_means_the_same(
                    other->Not_0.inner(),
                    local,
                    external,
                    target,
                    variables,
                );
            },
            Expr::Op(op) => {
                op.lemma_operands_are_smaller();
                op.lhs().lemma_alike_means_the_same(
                    other->Op_0.lhs(),
                    local,
                    external,
                    target,
                    variables,
                );
                op.rhs().lemma_alike_means_the_same(
                    other->Op_0.rhs(),
                    local,
                    external,
                    target,
                    variables,
                );
            },
            _ => {},
        }
    }

    /// The written form is faithful: an expression that is written as
    /// this one is, whoever built it, has the static type of this one
    /// under every environment, and evaluates to the same against every
    /// event.
    pub proof fn theorem_written_form_is_faithful(
        self,
        other: Expr,
        local: Map<Seq<char>, TypeDef>,
        external: Map<Seq<char>, TypeDef>,
        target: Map<Seq<char>, ValueView>,
        variables: Map<Seq<char>, ValueView>,
    )
        requires
            self.writable(),
            other.writable(),
            self.format_spec() == other.format_spec(),
        ensures
            self.type_def_spec(local, external) == other.type_def_spec(local, external),
            self.resolve_spec(target, variables) == other.resolve_spec(target, variables),
    {
        self.lemma_written_alike(other);
        self.lemma_alike_means_the_same(other, local, external, target, variables);
    }
}

} // verus!
