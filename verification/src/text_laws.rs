//! What holds of the operators and visibilities that are told from what is written, and of the
//! operations on texts.
use crate::ast::{BinOp, UnOp};
use crate::kinds::{bin_op_of, un_op_of, visibility_of};
use crate::text::{
    ascii_lower, decimal, decimal_i128, digits_value, holds_text, is_digits, no_spaces,
    same_ignoring_case, segment,
};
use vstd::prelude::*;

verus! {

/// How a two-place operator is written.
pub open spec fn token(op: BinOp) -> Seq<char> {
    match op {
        BinOp::Add => seq!['+'],
        BinOp::Sub => seq!['-'],
        BinOp::Mul => seq!['*'],
        BinOp::Div => seq!['/'],
        BinOp::Rem => seq!['%'],
        BinOp::And => seq!['&', '&'],
        BinOp::Or => seq!['|', '|'],
        BinOp::BitXor => seq!['^'],
        BinOp::BitAnd => seq!['&'],
        BinOp::BitOr => seq!['|'],
        BinOp::Shl => seq!['<', '<'],
        BinOp::Shr => seq!['>', '>'],
        BinOp::Eq => seq!['=', '='],
        BinOp::Lt => seq!['<'],
        BinOp::Le => seq!['<', '='],
        BinOp::Ne => seq!['!', '='],
        BinOp::Ge => seq!['>', '='],
        BinOp::Gt => seq!['>'],
        BinOp::AddAssign => seq!['+', '='],
        BinOp::SubAssign => seq!['-', '='],
        BinOp::MulAssign => seq!['*', '='],
        BinOp::DivAssign => seq!['/', '='],
        BinOp::RemAssign => seq!['%', '='],
        BinOp::BitXorAssign => seq!['^', '='],
        BinOp::BitAndAssign => seq!['&', '='],
        BinOp::BitOrAssign => seq!['|', '='],
        BinOp::ShlAssign => seq!['<', '<', '='],
        BinOp::ShrAssign => seq!['>', '>', '='],
    }
}

/// How a one-place operator is written.
pub open spec fn unary_token(op: UnOp) -> Seq<char> {
    match op {
        UnOp::Deref => seq!['*'],
        UnOp::Not => seq!['!'],
        UnOp::Neg => seq!['-'],
    }
}

proof fn lemma_tokens()
    ensures
        "+"@ == seq!['+'],
        "-"@ == seq!['-'],
        "*"@ == seq!['*'],
        "/"@ == seq!['/'],
        "%"@ == seq!['%'],
        "&&"@ == seq!['&', '&'],
        "||"@ == seq!['|', '|'],
        "^"@ == seq!['^'],
        "&"@ == seq!['&'],
        "|"@ == seq!['|'],
        "<<"@ == seq!['<', '<'],
        ">>"@ == seq!['>', '>'],
        "=="@ == seq!['=', '='],
        "<"@ == seq!['<'],
        "<="@ == seq!['<', '='],
        "!="@ == seq!['!', '='],
        ">="@ == seq!['>', '='],
        ">"@ == seq!['>'],
        "+="@ == seq!['+', '='],
        "-="@ == seq!['-', '='],
        "*="@ == seq!['*', '='],
        "/="@ == seq!['/', '='],
        "%="@ == seq!['%', '='],
        "^="@ == seq!['^', '='],
        "&="@ == seq!['&', '='],
        "|="@ == seq!['|', '='],
        "<<="@ == seq!['<', '<', '='],
        ">>="@ == seq!['>', '>', '='],
        "!"@ == seq!['!'],
{
    reveal_strlit("+");
    reveal_strlit("-");
    reveal_strlit("*");
    reveal_strlit("/");
    reveal_strlit("%");
    reveal_strlit("&&");
    reveal_strlit("||");
    reveal_strlit("^");
    reveal_strlit("&");
    reveal_strlit("|");
    reveal_strlit("<<");
    reveal_strlit(">>");
    reveal_strlit("==");
    reveal_strlit("<");
    reveal_strlit("<=");
    reveal_strlit("!=");
    reveal_strlit(">=");
    reveal_strlit(">");
    reveal_strlit("+=");
    reveal_strlit("-=");
    reveal_strlit("*=");
    reveal_strlit("/=");
    reveal_strlit("%=");
    reveal_strlit("^=");
    reveal_strlit("&=");
    reveal_strlit("|=");
    reveal_strlit("<<=");
    reveal_strlit(">>=");
    reveal_strlit("!");
    assert("+"@ =~= seq!['+']);
    assert("-"@ =~= seq!['-']);
    assert("*"@ =~= seq!['*']);
    assert("/"@ =~= seq!['/']);
    assert("%"@ =~= seq!['%']);
    assert("&&"@ =~= seq!['&', '&']);
    assert("||"@ =~= seq!['|', '|']);
    assert("^"@ =~= seq!['^']);
    assert("&"@ =~= seq!['&']);
    assert("|"@ =~= seq!['|']);
    assert("<<"@ =~= seq!['<', '<']);
    assert(">>"@ =~= seq!['>', '>']);
    assert("=="@ =~= seq!['=', '=']);
    assert("<"@ =~= seq!['<']);
    assert("<="@ =~= seq!['<', '=']);
    assert("!="@ =~= seq!['!', '=']);
    assert(">="@ =~= seq!['>', '=']);
    assert(">"@ =~= seq!['>']);
    assert("+="@ =~= seq!['+', '=']);
    assert("-="@ =~= seq!['-', '=']);
    assert("*="@ =~= seq!['*', '=']);
    assert("/="@ =~= seq!['/', '=']);
    assert("%="@ =~= seq!['%', '=']);
    assert("^="@ =~= seq!['^', '=']);
    assert("&="@ =~= seq!['&', '=']);
    assert("|="@ =~= seq!['|', '=']);
    assert("<<="@ =~= seq!['<', '<', '=']);
    assert(">>="@ =~= seq!['>', '>', '=']);
    assert("!"@ =~= seq!['!']);
}

/// The length of the token of an operator, and its first two characters.
proof fn lemma_token_chars(op: BinOp) -> (r: (int, char, char))
    ensures
        r.0 == token(op).len(),
        r.1 == token(op)[0],
        r.0 > 1 ==> r.2 == token(op)[1],
        r == (match op {
            BinOp::Add => (1int, '+', ' '),
            BinOp::Sub => (1int, '-', ' '),
            BinOp::Mul => (1int, '*', ' '),
            BinOp::Div => (1int, '/', ' '),
            BinOp::Rem => (1int, '%', ' '),
            BinOp::And => (2int, '&', '&'),
            BinOp::Or => (2int, '|', '|'),
            BinOp::BitXor => (1int, '^', ' '),
            BinOp::BitAnd => (1int, '&', ' '),
            BinOp::BitOr => (1int, '|', ' '),
            BinOp::Shl => (2int, '<', '<'),
            BinOp::Shr => (2int, '>', '>'),
            BinOp::Eq => (2int, '=', '='),
            BinOp::Lt => (1int, '<', ' '),
            BinOp::Le => (2int, '<', '='),
            BinOp::Ne => (2int, '!', '='),
            BinOp::Ge => (2int, '>', '='),
            BinOp::Gt => (1int, '>', ' '),
            BinOp::AddAssign => (2int, '+', '='),
            BinOp::SubAssign => (2int, '-', '='),
            BinOp::MulAssign => (2int, '*', '='),
            BinOp::DivAssign => (2int, '/', '='),
            BinOp::RemAssign => (2int, '%', '='),
            BinOp::BitXorAssign => (2int, '^', '='),
            BinOp::BitAndAssign => (2int, '&', '='),
            BinOp::BitOrAssign => (2int, '|', '='),
            BinOp::ShlAssign => (3int, '<', '<'),
            BinOp::ShrAssign => (3int, '>', '>'),
        }),
{
    match op {
        BinOp::Add => (1int, '+', ' '),
        BinOp::Sub => (1int, '-', ' '),
        BinOp::Mul => (1int, '*', ' '),
        BinOp::Div => (1int, '/', ' '),
        BinOp::Rem => (1int, '%', ' '),
        BinOp::And => (2int, '&', '&'),
        BinOp::Or => (2int, '|', '|'),
        BinOp::BitXor => (1int, '^', ' '),
        BinOp::BitAnd => (1int, '&', ' '),
        BinOp::BitOr => (1int, '|', ' '),
        BinOp::Shl => (2int, '<', '<'),
        BinOp::Shr => (2int, '>', '>'),
        BinOp::Eq => (2int, '=', '='),
        BinOp::Lt => (1int, '<', ' '),
        BinOp::Le => (2int, '<', '='),
        BinOp::Ne => (2int, '!', '='),
        BinOp::Ge => (2int, '>', '='),
        BinOp::Gt => (1int, '>', ' '),
        BinOp::AddAssign => (2int, '+', '='),
        BinOp::SubAssign => (2int, '-', '='),
        BinOp::MulAssign => (2int, '*', '='),
        BinOp::DivAssign => (2int, '/', '='),
        BinOp::RemAssign => (2int, '%', '='),
        BinOp::BitXorAssign => (2int, '^', '='),
        BinOp::BitAndAssign => (2int, '&', '='),
        BinOp::BitOrAssign => (2int, '|', '='),
        BinOp::ShlAssign => (3int, '<', '<'),
        BinOp::ShrAssign => (3int, '>', '>'),
    }
}

/// No two operators are written alike.
proof fn lemma_tokens_differ(a: BinOp, b: BinOp)
    requires
        token(a) == token(b),
    ensures
        a == b,
{
    let x = lemma_token_chars(a);
    let y = lemma_token_chars(b);
    assert(x.0 == y.0 && x.1 == y.1);
    if x.0 > 1 {
        assert(x.2 == y.2);
    }
}

/// Each two-place operator is told as the one it is: an operator is read from its own token, and from
/// no other text.
pub proof fn operator_is_read_from_its_token(s: Seq<char>, op: BinOp)
    ensures
        bin_op_of(s) == Some(op) <==> s == token(op),
        bin_op_of(s) is None <==> forall|op: BinOp| s != #[trigger] token(op),
{
    lemma_tokens();
    if let Some(found) = bin_op_of(s) {
        assert(s == token(found));
        if s == token(op) {
            lemma_tokens_differ(found, op);
        }
    } else {
        assert forall|op: BinOp| s != #[trigger] token(op) by {}
    }
}

/// Each one-place operator is told as the one it is: an operator is read from its own token, and from
/// no other text.
pub proof fn unary_operator_is_read_from_its_token(s: Seq<char>, op: UnOp)
    ensures
        un_op_of(s) == Some(op) <==> s == unary_token(op),
        un_op_of(s) is None <==> forall|op: UnOp| s != #[trigger] unary_token(op),
{
    lemma_tokens();
    if let Some(found) = un_op_of(s) {
        assert(s == unary_token(found));
        if s == unary_token(op) {
            assert(unary_token(op)[0] == unary_token(found)[0]);
        }
    } else {
        assert forall|op: UnOp| s != #[trigger] unary_token(op) by {}
    }
}

/// What is marked `pub` is public, what is marked with nothing is inherited, and all else is
/// restricted; so two visibilities that are told apart were written differently.
pub proof fn visibility_is_as_written(a: Seq<char>, b: Seq<char>)
    ensures
        visibility_of(a) is Public <==> a == seq!['p', 'u', 'b'],
        visibility_of(a) is Inherited <==> a == Seq::<char>::empty(),
        visibility_of(a) is Restricted <==> a != seq!['p', 'u', 'b'] && a.len() > 0,
        visibility_of(a) != visibility_of(b) ==> a != b,
{
    reveal_strlit("pub");
    assert("pub"@ =~= seq!['p', 'u', 'b']);
    if a.len() == 0 {
        assert(a =~= Seq::<char>::empty());
    }
}

/// Leaving out the spaces of a text leaves out nothing else: what is put together is left as put
/// together, a text without spaces is left as it is, and of a space nothing is left.
pub proof fn only_spaces_are_left_out(a: Seq<char>, b: Seq<char>, c: char)
    ensures
        no_spaces(a + b) == no_spaces(a) + no_spaces(b),
        no_spaces(seq![c]) == (if c == ' ' {
            Seq::<char>::empty()
        } else {
            seq![c]
        }),
        !no_spaces(a).contains(' '),
        !a.contains(' ') ==> no_spaces(a) == a,
        no_spaces(no_spaces(a)) == no_spaces(a),
    decreases b.len(),
{
    lemma_no_spaces_of_sum(a, b);
    assert(seq![c].drop_last() =~= Seq::<char>::empty());
    assert(no_spaces(Seq::<char>::empty()) =~= Seq::<char>::empty());
    assert(Seq::<char>::empty().push(c) =~= seq![c]);
    lemma_no_space_left(a);
    lemma_spaceless_kept(a);
    lemma_spaceless_kept(no_spaces(a));
}

proof fn lemma_no_spaces_of_sum(a: Seq<char>, b: Seq<char>)
    ensures
        no_spaces(a + b) == no_spaces(a) + no_spaces(b),
    decreases b.len(),
{
    if b.len() == 0 {
        assert(a + b =~= a);
        assert(no_spaces(a) + no_spaces(b) =~= no_spaces(a));
    } else {
        lemma_no_spaces_of_sum(a, b.drop_last());
        assert((a + b).drop_last() =~= a + b.drop_last());
        assert((a + b).last() == b.last());
        assert(no_spaces(a + b) =~= no_spaces(a) + no_spaces(b));
    }
}

proof fn lemma_no_space_left(a: Seq<char>)
    ensures
        !no_spaces(a).contains(' '),
    decreases a.len(),
{
    if a.len() > 0 {
        lemma_no_space_left(a.drop_last());
        let before = no_spaces(a.drop_last());
        if no_spaces(a).contains(' ') {
            let i = choose|i: int| 0 <= i < no_spaces(a).len() && no_spaces(a)[i] == ' ';
            if i < before.len() {
                assert(before[i] == ' ');
                assert(before.contains(' '));
            }
        }
    }
}

proof fn lemma_spaceless_kept(a: Seq<char>)
    ensures
        !a.contains(' ') ==> no_spaces(a) == a,
    decreases a.len(),
{
    if a.len() > 0 && !a.contains(' ') {
        let b = a.drop_last();
        assert(!b.contains(' ')) by {
            if b.contains(' ') {
                let i = choose|i: int| 0 <= i < b.len() && b[i] == ' ';
                assert(a[i] == ' ');
            }
        }
        lemma_spaceless_kept(b);
        assert(a[a.len() - 1] != ' ');
        assert(b.push(a.last()) =~= a);
    }
}

/// A text stands in another exactly where the other is made of something, the text, and something
/// more.
pub proof fn text_stands_between(s: Seq<char>, part: Seq<char>)
    ensures
        holds_text(s, part) <==> exists|a: Seq<char>, b: Seq<char>| s == #[trigger] (a + part + b),
{
    if holds_text(s, part) {
        let i = choose|i: int|
            0 <= i <= s.len() - part.len() && #[trigger] s.subrange(i, i + part.len()) == part;
        let a = s.take(i);
        let b = s.skip(i + part.len());
        assert(s =~= a + s.subrange(i, i + part.len()) + b);
        assert(s == a + part + b);
    }
    if exists|a: Seq<char>, b: Seq<char>| s == #[trigger] (a + part + b) {
        let (a, b) = choose|a: Seq<char>, b: Seq<char>| s == #[trigger] (a + part + b);
        let i = a.len() as int;
        assert(s.subrange(i, i + part.len()) =~= part);
    }
}

/// Whether two characters are one ASCII letter, one of them a capital.
pub open spec fn cases_of_one_letter(a: char, b: char) -> bool {
    ||| 65 <= a as u32 <= 90 && b as u32 == a as u32 + 32
    ||| 65 <= b as u32 <= 90 && a as u32 == b as u32 + 32
}

proof fn lemma_lower(a: char, b: char)
    ensures
        ascii_lower(a) == ascii_lower(b) <==> a == b || cases_of_one_letter(a, b),
{
}

/// Two texts are the same but for their case exactly where they are as long as each other and differ
/// only in places where one has a capital and the other the small letter.
pub proof fn case_is_all_that_may_differ(a: Seq<char>, b: Seq<char>)
    ensures
        same_ignoring_case(a, b) <==> a.len() == b.len() && forall|i: int|
            0 <= i < a.len() ==> (#[trigger] a[i] == b[i] || cases_of_one_letter(a[i], b[i])),
{
    assert forall|i: int| 0 <= i < a.len() && a.len() == b.len() implies (ascii_lower(
        #[trigger] a[i],
    ) == ascii_lower(b[i])) == (a[i] == b[i] || cases_of_one_letter(a[i], b[i])) by {
        lemma_lower(a[i], b[i]);
    }
}

/// The digit that stands for `d`.
pub open spec fn digit(d: int) -> char {
    if d == 0 {
        '0'
    } else if d == 1 {
        '1'
    } else if d == 2 {
        '2'
    } else if d == 3 {
        '3'
    } else if d == 4 {
        '4'
    } else if d == 5 {
        '5'
    } else if d == 6 {
        '6'
    } else if d == 7 {
        '7'
    } else if d == 8 {
        '8'
    } else {
        '9'
    }
}

/// `n` written out in decimal digits.
pub open spec fn digits_of(n: nat) -> Seq<char>
    decreases n,
{
    if n < 10 {
        seq![digit(n as int)]
    } else {
        digits_of(n / 10).push(digit((n % 10) as int))
    }
}

/// `n` written out in decimal, with a sign where it is negative.
pub open spec fn number_text(n: int) -> Seq<char> {
    if n < 0 {
        seq!['-'] + digits_of((-n) as nat)
    } else {
        digits_of(n as nat)
    }
}

proof fn lemma_digits_of(n: nat)
    ensures
        is_digits(digits_of(n)),
        digits_value(digits_of(n)) == n,
    decreases n,
{
    if n < 10 {
        let s = seq![digit(n as int)];
        assert(s.drop_last() =~= Seq::<char>::empty());
        assert(digits_value(s.drop_last()) == 0);
        assert(s.last() == digit(n as int));
    } else {
        let before = digits_of(n / 10);
        let d = digit((n % 10) as int);
        lemma_digits_of(n / 10);
        assert(before.push(d).drop_last() =~= before);
        assert(before.push(d).last() == d);
        assert(n == (n / 10) * 10 + n % 10) by (nonlinear_arith);
        assert forall|i: int| 0 <= i < before.push(d).len() implies '0' <= #[trigger] before.push(
            d,
        )[i] <= '9' by {
            if i < before.len() {
                assert(before.push(d)[i] == before[i]);
            }
        }
    }
}

/// A number that is written out in decimal is read as that number, and one that `i128` cannot hold is
/// not read as one of those that it can.
pub proof fn written_number_is_read(n: int)
    ensures
        decimal(number_text(n)) == Some(n),
        i128::MIN <= n <= i128::MAX ==> decimal_i128(number_text(n)) == Some(n as i128),
        !(i128::MIN <= n <= i128::MAX) ==> decimal_i128(number_text(n)) is None,
{
    if n < 0 {
        let m = (-n) as nat;
        lemma_digits_of(m);
        assert(number_text(n).skip(1) =~= digits_of(m));
        assert(number_text(n)[0] == '-');
    } else {
        lemma_digits_of(n as nat);
        assert('0' <= number_text(n)[0] <= '9');
    }
}

/// Digits before others count ten times for each that follows: reading runs from left to right.
pub proof fn digits_are_read_from_left_to_right(a: Seq<char>, b: Seq<char>)
    requires
        is_digits(a),
        is_digits(b),
    ensures
        decimal(a + b) is Some,
        b.len() == 1 ==> decimal(a + b)->0 == 10 * decimal(a)->0 + decimal(b)->0,
        decimal(seq!['0'] + a) == decimal(a),
        decimal(seq!['+'] + a) == decimal(a),
        decimal(seq!['-'] + a) == Some(-decimal(a)->0),
{
    let s = a + b;
    assert forall|i: int| 0 <= i < s.len() implies '0' <= #[trigger] s[i] <= '9' by {
        if i < a.len() {
            assert(s[i] == a[i]);
        } else {
            assert(s[i] == b[i - a.len()]);
        }
    }
    assert('0' <= a[0] <= '9');
    assert('0' <= b[0] <= '9');
    assert(s[0] == a[0]);
    if b.len() == 1 {
        assert(s.drop_last() =~= a);
        assert(s.last() == b[0]);
        assert(b.drop_last() =~= Seq::<char>::empty());
        assert(digits_value(b.drop_last()) == 0);
    }
    let z = seq!['0'] + a;
    assert forall|i: int| 0 <= i < z.len() implies '0' <= #[trigger] z[i] <= '9' by {
        if i > 0 {
            assert(z[i] == a[i - 1]);
        }
    }
    lemma_leading_zero(a);
    assert((seq!['+'] + a).skip(1) =~= a);
    assert((seq!['-'] + a).skip(1) =~= a);
}

proof fn lemma_leading_zero(a: Seq<char>)
    ensures
        digits_value(seq!['0'] + a) == digits_value(a),
    decreases a.len(),
{
    let z = seq!['0'] + a;
    if a.len() == 0 {
        assert(z =~= seq!['0']);
        assert(z.drop_last() =~= Seq::<char>::empty());
        assert(digits_value(z.drop_last()) == 0);
    } else {
        lemma_leading_zero(a.drop_last());
        assert(z.drop_last() =~= seq!['0'] + a.drop_last());
        assert(z.last() == a.last());
    }
}

/// A segment behind a path and one more behind that are one path; the path stays in front, the
/// segment behind it, and two colons between them.
pub proof fn segments_line_up(a: Seq<char>, b: Seq<char>, c: Seq<char>)
    ensures
        segment(segment(a, b), c) == segment(a, segment(b, c)),
        segment(a, b).len() == a.len() + b.len() + 2,
        segment(a, b).take(a.len() as int) == a,
        segment(a, b).skip(a.len() as int) == seq![':', ':'] + b,
{
    assert(segment(segment(a, b), c) =~= segment(a, segment(b, c)));
    assert(segment(a, b).take(a.len() as int) =~= a);
    assert(segment(a, b).skip(a.len() as int) =~= seq![':', ':'] + b);
}

} // verus!
