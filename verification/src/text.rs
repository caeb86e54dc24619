//! Verified text primitives for the encoder: decimal formatting of integers,
//! JSON string escaping, and indentation, each proved against an exact
//! specification of the characters appended to the output.

use vstd::prelude::*;
use vstd::string::*;

verus! {

/// Relies on String::push: appends the given character to the end of the
/// string.
#[verifier::external_body]
pub(crate) fn push_char(s: &mut String, c: char)
    ensures
        final(s)@ == old(s)@.push(c),
{
    s.push(c);
}

/// The character for one decimal digit.
pub open spec fn digit_char(d: nat) -> char {
    if d == 0 {
        '0'
    } else if d == 1 {
        '1'
    } else if d == 2 {
        '2'
    } else if d == 3 {
        '3'
    } else if d == 4 {
        '4'
    } else if d == 5 {
        '5'
    } else if d == 6 {
        '6'
    } else if d == 7 {
        '7'
    } else if d == 8 {
        '8'
    } else {
        '9'
    }
}

/// The decimal digit string of a non-negative integer, without sign or
/// leading zeros (a lone zero for 0).
pub open spec fn dec_digits(n: nat) -> Seq<char>
    decreases n,
{
    if n < 10 {
        seq![digit_char(n)]
    } else {
        dec_digits(n / 10).push(digit_char(n % 10))
    }
}

/// The decimal string of an integer: a minus sign before the digits when it
/// is negative.
pub open spec fn dec_int(n: int) -> Seq<char> {
    if n >= 0 {
        dec_digits(n as nat)
    } else {
        seq!['-'] + dec_digits((-n) as nat)
    }
}

fn digit_to_char(d: u64) -> (c: char)
    requires
        d < 10,
    ensures
        c == digit_char(d as nat),
{
    if d == 0 {
        '0'
    } else if d == 1 {
        '1'
    } else if d == 2 {
        '2'
    } else if d == 3 {
        '3'
    } else if d == 4 {
        '4'
    } else if d == 5 {
        '5'
    } else if d == 6 {
        '6'
    } else if d == 7 {
        '7'
    } else if d == 8 {
        '8'
    } else {
        '9'
    }
}

/// Appends the decimal digit string of `v`.
pub(crate) fn push_u64_digits(out: &mut String, v: u64)
    ensures
        final(out)@ == old(out)@ + dec_digits(v as nat),
    decreases v,
{
    if v < 10 {
        push_char(out, digit_to_char(v));
        proof {
            assert(old(out)@.push(digit_char(v as nat)) =~= old(out)@ + dec_digits(v as nat));
        }
    } else {
        push_u64_digits(out, v / 10);
        push_char(out, digit_to_char(v % 10));
        proof {
            assert((old(out)@ + dec_digits((v / 10) as nat)).push(digit_char((v % 10) as nat))
                =~= old(out)@ + dec_digits(v as nat));
        }
    }
}

/// Appends the decimal string of `v`, with a minus sign when negative.
pub(crate) fn push_i64_digits(out: &mut String, v: i64)
    ensures
        final(out)@ == old(out)@ + dec_int(v as int),
{
    if v >= 0 {
        push_u64_digits(out, v as u64);
    } else {
        push_char(out, '-');
        let mag: u64 = ((-1 - v) as u64) + 1;
        assert(mag as int == -(v as int));
        push_u64_digits(out, mag);
        proof {
            assert(old(out)@.push('-') + dec_digits(mag as nat) =~= old(out)@ + dec_int(v as int));
        }
    }
}

/// Law: a decimal token consists of decimal digits, possibly after one minus
/// sign, so compact scalar output inserts no whitespace and no structural
/// characters.
pub open spec fn is_dec_digit(c: char) -> bool {
    '0' <= c <= '9'
}

pub proof fn lemma_dec_digits_only_digits(n: nat)
    ensures
        dec_digits(n).len() >= 1,
        forall|i: int| 0 <= i < dec_digits(n).len() ==> is_dec_digit(#[trigger] dec_digits(n)[i]),
    decreases n,
{
    if n < 10 {
    } else {
        lemma_dec_digits_only_digits(n / 10);
    }
}

pub proof fn lemma_dec_int_no_whitespace(n: int)
    ensures
        forall|i: int| 0 <= i < dec_int(n).len() ==> (is_dec_digit(#[trigger] dec_int(n)[i])
            || dec_int(n)[i] == '-'),
{
    if n >= 0 {
        lemma_dec_digits_only_digits(n as nat);
    } else {
        lemma_dec_digits_only_digits((-n) as nat);
        assert(forall|i: int| 1 <= i < dec_int(n).len() ==> #[trigger] dec_int(n)[i]
            == dec_digits((-n) as nat)[i - 1]);
    }
}

/// No character of `s` is an inserted-whitespace character.
pub open spec fn no_whitespace(s: Seq<char>) -> bool {
    forall|i: int| 0 <= i < s.len() ==> s[i] != ' ' && s[i] != '\n' && s[i] != '\t' && s[i] != '\r'
}

/// The character for one hexadecimal digit, lower case.
pub open spec fn hex_char(d: nat) -> char {
    if d == 0 {
        '0'
    } else if d == 1 {
        '1'
    } else if d == 2 {
        '2'
    } else if d == 3 {
        '3'
    } else if d == 4 {
        '4'
    } else if d == 5 {
        '5'
    } else if d == 6 {
        '6'
    } else if d == 7 {
        '7'
    } else if d == 8 {
        '8'
    } else if d == 9 {
        '9'
    } else if d == 10 {
        'a'
    } else if d == 11 {
        'b'
    } else if d == 12 {
        'c'
    } else if d == 13 {
        'd'
    } else if d == 14 {
        'e'
    } else {
        'f'
    }
}

fn hex_to_char(d: u32) -> (c: char)
    requires
        d < 16,
    ensures
        c == hex_char(d as nat),
{
    if d == 0 {
        '0'
    } else if d == 1 {
        '1'
    } else if d == 2 {
        '2'
    } else if d == 3 {
        '3'
    } else if d == 4 {
        '4'
    } else if d == 5 {
        '5'
    } else if d == 6 {
        '6'
    } else if d == 7 {
        '7'
    } else if d == 8 {
        '8'
    } else if d == 9 {
        '9'
    } else if d == 10 {
        'a'
    } else if d == 11 {
        'b'
    } else if d == 12 {
        'c'
    } else if d == 13 {
        'd'
    } else if d == 14 {
        'e'
    } else {
        'f'
    }
}

/// How one character appears inside a JSON string literal: quote and
/// backslash get a backslash escape, the control characters and delete get
/// their short escape or a `\u00..` escape, and every other character stands
/// for itself.
pub open spec fn escaped_char(c: char) -> Seq<char> {
    let u = c as u32;
    if u == 34 {
        seq!['\\', '"']
    } else if u == 92 {
        seq!['\\', '\\']
    } else if u == 8 {
        seq!['\\', 'b']
    } else if u == 9 {
        seq!['\\', 't']
    } else if u == 10 {
        seq!['\\', 'n']
    } else if u == 12 {
        seq!['\\', 'f']
    } else if u == 13 {
        seq!['\\', 'r']
    } else if u < 32 || u == 127 {
        seq!['\\', 'u', '0', '0', hex_char((u / 16) as nat), hex_char((u % 16) as nat)]
    } else {
        seq![c]
    }
}

/// The escaped body of a string, character by character.
pub open spec fn escape_seq(s: Seq<char>) -> Seq<char>
    decreases s.len(),
{
    if s.len() == 0 {
        Seq::<char>::empty()
    } else {
        escaped_char(s[0]) + escape_seq(s.drop_first())
    }
}

/// A full JSON string literal: the escaped body between double quotes.
pub open spec fn quoted(s: Seq<char>) -> Seq<char> {
    seq!['"'] + escape_seq(s) + seq!['"']
}

pub proof fn lemma_escape_seq_push(s: Seq<char>, c: char)
    ensures
        escape_seq(s.push(c)) == escape_seq(s) + escaped_char(c),
    decreases s.len(),
{
    if s.len() == 0 {
        assert(s.push(c).len() == 1);
        assert(s.push(c)[0] == c);
        assert(s.push(c).drop_first() =~= Seq::<char>::empty());
        assert(escape_seq(s.push(c)) == escaped_char(c) + escape_seq(Seq::<char>::empty()));
        assert(escape_seq(s.push(c)) =~= escape_seq(s) + escaped_char(c));
    } else {
        assert(s.push(c)[0] == s[0]);
        assert(s.push(c).drop_first() =~= s.drop_first().push(c));
        lemma_escape_seq_push(s.drop_first(), c);
        assert(escape_seq(s.push(c)) == escaped_char(s[0]) + (escape_seq(s.drop_first())
            + escaped_char(c)));
        assert(escape_seq(s.push(c)) =~= escape_seq(s) + escaped_char(c));
    }
}

fn push_escaped_char(out: &mut String, c: char)
    ensures
        final(out)@ == old(out)@ + escaped_char(c),
{
    let u = c as u32;
    if u == 34 || u == 92 {
        push_char(out, '\\');
        push_char(out, c);
        proof {
            assert(old(out)@.push('\\').push(c) =~= old(out)@ + escaped_char(c));
        }
    } else if u == 8 {
        push_char(out, '\\');
        push_char(out, 'b');
        proof {
            assert(old(out)@.push('\\').push('b') =~= old(out)@ + escaped_char(c));
        }
    } else if u == 9 {
        push_char(out, '\\');
        push_char(out, 't');
        proof {
            assert(old(out)@.push('\\').push('t') =~= old(out)@ + escaped_char(c));
        }
    } else if u == 10 {
        push_char(out, '\\');
        push_char(out, 'n');
        proof {
            assert(old(out)@.push('\\').push('n') =~= old(out)@ + escaped_char(c));
        }
    } else if u == 12 {
        push_char(out, '\\');
        push_char(out, 'f');
        proof {
            assert(old(out)@.push('\\').push('f') =~= old(out)@ + escaped_char(c));
        }
    } else if u == 13 {
        push_char(out, '\\');
        push_char(out, 'r');
        proof {
            assert(old(out)@.push('\\').push('r') =~= old(out)@ + escaped_char(c));
        }
    } else if u < 32 || u == 127 {
        push_char(out, '\\');
        push_char(out, 'u');
        push_char(out, '0');
        push_char(out, '0');
        push_char(out, hex_to_char(u / 16));
        push_char(out, hex_to_char(u % 16));
        proof {
            assert(old(out)@.push('\\').push('u').push('0').push('0').push(
                hex_char((u / 16) as nat),
            ).push(hex_char((u % 16) as nat)) =~= old(out)@ + escaped_char(c));
        }
    } else {
        push_char(out, c);
        proof {
            assert(old(out)@.push(c) =~= old(out)@ + escaped_char(c));
        }
    }
}

/// Appends the JSON string literal for `v`: a double quote, the escaped
/// characters of `v`, and a closing double quote.
pub(crate) fn push_escaped(out: &mut String, v: &str)
    ensures
        final(out)@ == old(out)@ + quoted(v@),
{
    let ghost orig: Seq<char> = out@;
    push_char(out, '"');
    proof {
        assert(out@ =~= orig + seq!['"'] + escape_seq(v@.take(0)));
    }
    let n = v.unicode_len();
    let mut i: usize = 0;
    while i < n
        invariant
            n == v@.len(),
            i <= n,
            out@ == orig + seq!['"'] + escape_seq(v@.take(i as int)),
        decreases n - i,
    {
        let c = v.get_char(i);
        push_escaped_char(out, c);
        proof {
            assert(v@.take(i + 1) =~= v@.take(i as int).push(v@[i as int]));
            lemma_escape_seq_push(v@.take(i as int), v@[i as int]);
            assert(out@ =~= orig + seq!['"'] + escape_seq(v@.take(i + 1)));
        }
        i += 1;
    }
    push_char(out, '"');
    proof {
        assert(v@.take(n as int) =~= v@);
        assert(out@ =~= orig + quoted(v@));
    }
}

/// Appends the single-character JSON string literal for `c`, escaped the same
/// way a one-character string would be.
pub(crate) fn push_escaped_one(out: &mut String, c: char)
    ensures
        final(out)@ == old(out)@ + quoted(seq![c]),
{
    push_char(out, '"');
    push_escaped_char(out, c);
    push_char(out, '"');
    proof {
        assert(seq![c].len() == 1);
        assert(seq![c][0] == c);
        assert(seq![c].drop_first() =~= Seq::<char>::empty());
        assert(escape_seq(seq![c]) == escaped_char(c) + escape_seq(Seq::<char>::empty()));
        assert(escape_seq(seq![c]) =~= escaped_char(c));
        assert(old(out)@.push('"') + escaped_char(c) =~= old(out)@ + seq!['"'] + escaped_char(c));
        assert((old(out)@ + seq!['"'] + escaped_char(c)).push('"') =~= old(out)@ + quoted(seq![c]));
    }
}

/// Escaping one character introduces no whitespace: whitespace other than a
/// plain space is turned into a backslash escape, and every escape sequence
/// consists of non-whitespace characters.
pub proof fn lemma_escaped_char_no_whitespace(c: char)
    requires
        c != ' ',
    ensures
        no_whitespace(escaped_char(c)),
{
}

pub proof fn lemma_escape_seq_no_whitespace(s: Seq<char>)
    requires
        forall|i: int| 0 <= i < s.len() ==> s[i] != ' ',
    ensures
        no_whitespace(escape_seq(s)),
    decreases s.len(),
{
    if s.len() == 0 {
    } else {
        lemma_escaped_char_no_whitespace(s[0]);
        lemma_escape_seq_no_whitespace(s.drop_first());
        let head = escaped_char(s[0]);
        let tail = escape_seq(s.drop_first());
        assert forall|i: int| 0 <= i < escape_seq(s).len() implies escape_seq(s)[i] != ' '
            && escape_seq(s)[i] != '\n' && escape_seq(s)[i] != '\t' && escape_seq(s)[i]
            != '\r' by {
            if i < head.len() {
                assert(escape_seq(s)[i] == head[i]);
            } else {
                assert(escape_seq(s)[i] == tail[i - head.len()]);
            }
        }
    }
}

/// Law: a space-free string escapes to a whitespace-free JSON string
/// literal, so compact output holds no whitespace beyond what the encoded
/// characters themselves require.
pub proof fn lemma_quoted_no_whitespace(s: Seq<char>)
    requires
        forall|i: int| 0 <= i < s.len() ==> s[i] != ' ',
    ensures
        no_whitespace(quoted(s)),
{
    lemma_escape_seq_no_whitespace(s);
    let body = escape_seq(s);
    assert forall|i: int| 0 <= i < quoted(s).len() implies quoted(s)[i] != ' ' && quoted(s)[i]
        != '\n' && quoted(s)[i] != '\t' && quoted(s)[i] != '\r' by {
        if i == 0 {
            assert(quoted(s)[i] == '"');
        } else if i < 1 + body.len() {
            assert(quoted(s)[i] == body[i - 1]);
        } else {
            assert(quoted(s)[i] == '"');
        }
    }
}

/// `n` spaces of indentation.
pub open spec fn spaces_seq(n: nat) -> Seq<char> {
    Seq::new(n, |i: int| ' ')
}

/// Appends `n` spaces.
pub(crate) fn push_spaces(out: &mut String, n: u32)
    ensures
        final(out)@ == old(out)@ + spaces_seq(n as nat),
{
    let ghost orig: Seq<char> = out@;
    let mut i: u32 = 0;
    proof {
        assert(out@ =~= orig + spaces_seq(0));
    }
    while i < n
        invariant
            i <= n,
            out@ == orig + spaces_seq(i as nat),
        decreases n - i,
    {
        push_char(out, ' ');
        proof {
            assert((orig + spaces_seq(i as nat)).push(' ') =~= orig + spaces_seq((i + 1) as nat));
        }
        i += 1;
    }
}

} // verus!
