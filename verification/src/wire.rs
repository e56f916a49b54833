//! The documented connection-to-core interface: decoding a tokenized
//! request into a [`Command`]. Byte-level framing (reading a line off the
//! wire and splitting it into whitespace-separated tokens) stays in the
//! connection layer; everything from tokens to a typed command is decided,
//! and verified, here.

use crate::resp::RespData;
use crate::resp::RespDataView;
use crate::store::Command;
use crate::store::CommandView;
use vstd::prelude::*;

verus! {

/// A decimal digit character.
pub open spec fn is_digit(c: char) -> bool {
    '0' <= c && c <= '9'
}

/// The numeric value of a decimal digit character.
pub open spec fn digit_val(c: char) -> int {
    c as int - '0' as int
}

/// Every character of `s` is a decimal digit.
pub open spec fn all_digits(s: Seq<char>) -> bool {
    forall|i: int| 0 <= i < s.len() ==> is_digit(#[trigger] s[i])
}

/// The value of a sequence of decimal digits, most significant first.
pub open spec fn digits_value(s: Seq<char>) -> int
    decreases s.len(),
{
    if s.len() == 0 {
        0
    } else {
        digits_value(s.drop_last()) * 10 + digit_val(s.last())
    }
}

/// The integer a token denotes: an optional leading minus sign followed by
/// at least one decimal digit. Anything else denotes nothing.
pub open spec fn int_literal_value(s: Seq<char>) -> Option<int> {
    if s.len() > 0 && s[0] == '-' {
        if s.len() > 1 && all_digits(s.skip(1)) {
            Some(-digits_value(s.skip(1)))
        } else {
            None
        }
    } else if s.len() > 0 && all_digits(s) {
        Some(digits_value(s))
    } else {
        None
    }
}

/// The `i64` a token denotes, if it denotes an integer that fits.
pub open spec fn parsed_i64(s: Seq<char>) -> Option<int> {
    match int_literal_value(s) {
        Some(n) => if i64::MIN <= n && n <= i64::MAX {
            Some(n)
        } else {
            None
        },
        None => None,
    }
}

/// A digit string's value is never negative.
proof fn lemma_digits_value_nonneg(s: Seq<char>)
    requires
        all_digits(s),
    ensures
        digits_value(s) >= 0,
    decreases s.len(),
{
    if s.len() > 0 {
        lemma_digits_value_nonneg(s.drop_last());
    }
}

/// Reading further digits can only increase a digit string's value.
proof fn lemma_digits_prefix_le(s: Seq<char>, i: int)
    requires
        all_digits(s),
        0 <= i <= s.len(),
    ensures
        digits_value(s.take(i)) <= digits_value(s),
    decreases s.len() - i,
{
    if i < s.len() {
        assert(s.take(i + 1).drop_last() =~= s.take(i));
        assert(all_digits(s.take(i)));
        lemma_digits_value_nonneg(s.take(i));
        assert(digits_value(s.take(i + 1)) == digits_value(s.take(i)) * 10 + digit_val(
            s.take(i + 1).last(),
        ));
        lemma_digits_prefix_le(s, i + 1);
    } else {
        assert(s.take(i) =~= s);
    }
}

/// Parses a token as a decimal `i64`, returning `None` exactly when the
/// token is not an optionally signed digit string whose value fits.
pub fn parse_i64(s: &str) -> (r: Option<i64>)
    ensures
        parsed_i64(s@) == match r {
            Some(v) => Some(v as int),
            None => None::<int>,
        },
{
    let n = s.unicode_len();
    if n == 0 {
        return None;
    }
    let neg = s.get_char(0) == '-';
    let start: usize = if neg {
        1
    } else {
        0
    };
    if start == n {
        return None;
    }
    // Accumulate the negated value so that i64::MIN itself stays in range.
    let mut acc: i64 = 0;
    let mut i: usize = start;
    while i < n
        invariant
            start <= i <= n,
            n == s@.len(),
            start < n,
            neg <==> (s@[0] == '-'),
            neg ==> start == 1,
            !neg ==> start == 0,
            all_digits(s@.subrange(start as int, i as int)),
            acc == -digits_value(s@.subrange(start as int, i as int)),
            i64::MIN <= acc <= 0,
        decreases n - i,
    {
        let c = s.get_char(i);
        let u: u32 = c as u32;
        if u < 48 || u > 57 {
            proof {
                assert(!is_digit(s@[i as int]));
                if neg {
                    assert(s@.skip(1)[i - 1] == s@[i as int]);
                    assert(!all_digits(s@.skip(1)));
                } else {
                    assert(!all_digits(s@));
                }
            }
            return None;
        }
        let d: i64 = (u - 48) as i64;
        proof {
            assert(is_digit(s@[i as int]));
            assert(d == digit_val(s@[i as int]));
            assert(s@.subrange(start as int, i as int + 1).drop_last() =~= s@.subrange(
                start as int,
                i as int,
            ));
            assert(s@.subrange(start as int, i as int + 1).last() == s@[i as int]);
        }
        let next = match acc.checked_mul(10) {
            Some(x) => x.checked_sub(d),
            None => None,
        };
        match next {
            Some(x) => {
                acc = x;
            },
            None => {
                // The digits read so far already exceed i64 either way.
                proof {
                    let digits = if neg {
                        s@.skip(1)
                    } else {
                        s@
                    };
                    let upto = i + 1 - start;
                    assert(digits_value(s@.subrange(start as int, i as int + 1)) > i64::MAX + 1);
                    if all_digits(digits) {
                        lemma_digits_prefix_le(digits, upto as int);
                        assert(digits.take(upto as int) =~= s@.subrange(
                            start as int,
                            i as int + 1,
                        ));
                    }
                }
                return None;
            },
        }
        i += 1;
    }
    proof {
        if neg {
            assert(s@.subrange(1, n as int) =~= s@.skip(1));
        } else {
            assert(s@.subrange(0, n as int) =~= s@);
        }
    }
    if neg {
        Some(acc)
    } else {
        if acc == i64::MIN {
            // The unsigned value is one past i64::MAX.
            return None;
        }
        Some(-acc)
    }
}

/// A whitespace character for the purpose of splitting a request line.
pub open spec fn is_space(c: char) -> bool {
    c == ' ' || c == '\t' || c == '\r' || c == '\n'
}

/// The run of non-whitespace characters at the head of `s`.
pub open spec fn head_token(s: Seq<char>) -> Seq<char>
    decreases s.len(),
{
    if s.len() == 0 || is_space(s[0]) {
        Seq::empty()
    } else {
        seq![s[0]] + head_token(s.skip(1))
    }
}

/// What remains of `s` once the run of non-whitespace characters at its
/// head is passed.
pub open spec fn past_head_token(s: Seq<char>) -> Seq<char>
    decreases s.len(),
{
    if s.len() == 0 || is_space(s[0]) {
        s
    } else {
        past_head_token(s.skip(1))
    }
}

proof fn lemma_past_head_token_le(s: Seq<char>)
    ensures
        past_head_token(s).len() <= s.len(),
    decreases s.len(),
{
    if s.len() > 0 && !is_space(s[0]) {
        lemma_past_head_token_le(s.skip(1));
    }
}

/// The whitespace-separated tokens of a request line, in order.
pub open spec fn tokens_of(s: Seq<char>) -> Seq<Seq<char>>
    decreases s.len(),
    via tokens_of_decreases
{
    if s.len() == 0 {
        Seq::empty()
    } else if is_space(s[0]) {
        tokens_of(s.skip(1))
    } else {
        seq![head_token(s)] + tokens_of(past_head_token(s))
    }
}

#[via_fn]
proof fn tokens_of_decreases(s: Seq<char>) {
    if s.len() > 0 && !is_space(s[0]) {
        lemma_past_head_token_le(s.skip(1));
    }
}

fn is_space_char(c: char) -> (b: bool)
    ensures
        b == is_space(c),
{
    c == ' ' || c == '\t' || c == '\r' || c == '\n'
}

/// Splits a request line into its whitespace-separated tokens, exactly as
/// [`tokens_of`] describes.
pub fn tokenize(line: &str) -> (tokens: Vec<String>)
    ensures
        tokens.deep_view() == tokens_of(line@),
{
    let n = line.unicode_len();
    let mut tokens: Vec<String> = Vec::new();
    let mut p: usize = 0;
    proof {
        assert(tokens.deep_view() =~= Seq::<Seq<char>>::empty());
        assert(line@.skip(0) =~= line@);
        assert(tokens.deep_view() + tokens_of(line@.skip(0)) =~= tokens_of(line@));
    }
    while p < n
        invariant
            p <= n,
            n == line@.len(),
            tokens_of(line@) == tokens.deep_view() + tokens_of(line@.skip(p as int)),
        decreases n - p,
    {
        let c = line.get_char(p);
        if is_space_char(c) {
            proof {
                assert(line@.skip(p as int)[0] == line@[p as int]);
                assert(line@.skip(p as int).skip(1) =~= line@.skip(p as int + 1));
            }
            p += 1;
        } else {
            let start = p;
            let mut q: usize = p;
            proof {
                assert(line@.subrange(start as int, q as int) + head_token(
                    line@.skip(q as int),
                ) =~= head_token(line@.skip(start as int)));
            }
            while q < n && !is_space_char(line.get_char(q))
                invariant
                    start <= q <= n,
                    n == line@.len(),
                    head_token(line@.skip(start as int)) == line@.subrange(
                        start as int,
                        q as int,
                    ) + head_token(line@.skip(q as int)),
                    past_head_token(line@.skip(start as int)) == past_head_token(
                        line@.skip(q as int),
                    ),
                decreases n - q,
            {
                proof {
                    assert(line@.skip(q as int)[0] == line@[q as int]);
                    assert(line@.skip(q as int).skip(1) =~= line@.skip(q as int + 1));
                    assert(line@.subrange(start as int, q as int + 1) =~= line@.subrange(
                        start as int,
                        q as int,
                    ) + seq![line@[q as int]]);
                }
                q += 1;
            }
            let tok = line.substring_char(start, q).to_owned();
            proof {
                // The head token ends here: what follows `q` is whitespace
                // or the end of the line.
                if q == n {
                    assert(line@.skip(q as int) =~= Seq::<char>::empty());
                }
                assert(head_token(line@.skip(q as int)) =~= Seq::<char>::empty());
                assert(head_token(line@.skip(start as int)) =~= line@.subrange(
                    start as int,
                    q as int,
                ));
                assert(past_head_token(line@.skip(start as int)) == line@.skip(q as int));
            }
            let ghost dv_before = tokens.deep_view();
            tokens.push(tok);
            proof {
                assert(tokens.deep_view() =~= dv_before.push(tok@));
                assert(tokens_of(line@.skip(start as int)) == seq![head_token(
                    line@.skip(start as int),
                )] + tokens_of(past_head_token(line@.skip(start as int))));
                assert(tokens.deep_view() + tokens_of(line@.skip(q as int)) =~= dv_before
                    + tokens_of(line@.skip(start as int)));
            }
            p = q;
        }
    }
    proof {
        assert(line@.skip(n as int) =~= Seq::<char>::empty());
        assert(tokens.deep_view() + tokens_of(line@.skip(n as int)) =~= tokens.deep_view());
    }
    tokens
}

/// The command a token list decodes to: exactly the documented wire forms
/// `SET key value`, `GET key`, `FLUSHALL`, `INCR key [by]` and
/// `DECR key [by]`; every other token list is `Unknown`.
pub open spec fn command_of(tokens: Seq<Seq<char>>) -> CommandView {
    if tokens.len() == 3 && tokens[0] == "SET"@ {
        CommandView::Put(tokens[1], RespDataView::SimpleStr(tokens[2]))
    } else if tokens.len() == 2 && tokens[0] == "GET"@ {
        CommandView::Get(tokens[1])
    } else if tokens.len() == 1 && tokens[0] == "FLUSHALL"@ {
        CommandView::FlushAll
    } else if tokens.len() == 2 && tokens[0] == "INCR"@ {
        CommandView::Incr(tokens[1], None)
    } else if tokens.len() == 3 && tokens[0] == "INCR"@ {
        match parsed_i64(tokens[2]) {
            Some(by) => CommandView::Incr(tokens[1], Some(by)),
            None => CommandView::Unknown,
        }
    } else if tokens.len() == 2 && tokens[0] == "DECR"@ {
        CommandView::Decr(tokens[1], None)
    } else if tokens.len() == 3 && tokens[0] == "DECR"@ {
        match parsed_i64(tokens[2]) {
            Some(by) => CommandView::Decr(tokens[1], Some(by)),
            None => CommandView::Unknown,
        }
    } else {
        CommandView::Unknown
    }
}

/// Decodes one request line into a [`Command`]: the line is split into its
/// whitespace-separated tokens and the tokens decoded per [`command_of`].
pub fn decode_line(line: &str) -> (cmd: Command)
    ensures
        cmd@ == command_of(tokens_of(line@)),
{
    let tokens = tokenize(line);
    parse_command(&tokens)
}

/// Decodes one tokenized request into a [`Command`], exactly as
/// [`command_of`] describes.
pub fn parse_command(tokens: &Vec<String>) -> (cmd: Command)
    ensures
        cmd@ == command_of(tokens.deep_view()),
{
    let set_word = String::from_str("SET");
    let get_word = String::from_str("GET");
    let flush_word = String::from_str("FLUSHALL");
    let incr_word = String::from_str("INCR");
    let decr_word = String::from_str("DECR");
    if tokens.len() == 3 && tokens[0] == set_word {
        Command::Put(tokens[1].clone(), RespData::SimpleStr(tokens[2].clone()))
    } else if tokens.len() == 2 && tokens[0] == get_word {
        Command::Get(tokens[1].clone())
    } else if tokens.len() == 1 && tokens[0] == flush_word {
        Command::FlushAll
    } else if tokens.len() == 2 && tokens[0] == incr_word {
        Command::Incr(tokens[1].clone(), None)
    } else if tokens.len() == 3 && tokens[0] == incr_word {
        match parse_i64(tokens[2].as_str()) {
            Some(by) => Command::Incr(tokens[1].clone(), Some(by)),
            None => Command::Unknown,
        }
    } else if tokens.len() == 2 && tokens[0] == decr_word {
        Command::Decr(tokens[1].clone(), None)
    } else if tokens.len() == 3 && tokens[0] == decr_word {
        match parse_i64(tokens[2].as_str()) {
            Some(by) => Command::Decr(tokens[1].clone(), Some(by)),
            None => Command::Unknown,
        }
    } else {
        Command::Unknown
    }
}

} // verus!
