//! Decimal numbers and comma-separated lists, as they stand on a command line
//! and in the messages of the harness.

use vstd::prelude::*;
use vstd::string::*;

verus! {

/// Whether `c` is one of the ten decimal digits.
pub open spec fn is_digit(c: char) -> bool {
    '0' <= c <= '9'
}

/// The value of the decimal digit `c`.
pub open spec fn digit_value(c: char) -> int {
    c as int - '0' as int
}

/// Whether `s` holds decimal digits and nothing else.
pub open spec fn all_digits(s: Seq<char>) -> bool {
    forall|i: int| 0 <= i < s.len() ==> is_digit(#[trigger] s[i])
}

/// The number that the digits `s` denote, most significant digit first.
pub open spec fn decimal_value(s: Seq<char>) -> int
    decreases s.len(),
{
    if s.len() == 0 {
        0
    } else {
        decimal_value(s.drop_last()) * 10 + digit_value(s.last())
    }
}

/// A number in the text `s`: an optional sign, `+` or, where `signed`, `-`,
/// then one decimal digit or more and nothing else. `None` where `s` is not of
/// that form.
pub open spec fn number_in(s: Seq<char>, signed: bool) -> Option<int> {
    if s.len() > 0 && s[0] == '+' {
        magnitude_in(s.skip(1))
    } else if signed && s.len() > 0 && s[0] == '-' {
        match magnitude_in(s.skip(1)) {
            Some(m) => Some(-m),
            None => None,
        }
    } else {
        magnitude_in(s)
    }
}

/// The number that `s` denotes where `s` is one digit or more, else `None`.
pub open spec fn magnitude_in(s: Seq<char>) -> Option<int> {
    if s.len() > 0 && all_digits(s) {
        Some(decimal_value(s))
    } else {
        None
    }
}

/// The unsigned number in `s`, where there is one and it is at most `max`.
pub open spec fn unsigned_in(s: Seq<char>, max: int) -> Option<int> {
    match number_in(s, false) {
        Some(v) => if v <= max {
            Some(v)
        } else {
            None
        },
        None => None,
    }
}

/// The signed number in `s`, where there is one and it lies in `min ..= max`.
pub open spec fn signed_in(s: Seq<char>, min: int, max: int) -> Option<int> {
    match number_in(s, true) {
        Some(v) => if min <= v <= max {
            Some(v)
        } else {
            None
        },
        None => None,
    }
}

/// Digits denote no negative number, and a longer run of digits denotes no
/// smaller number than its beginning.
pub proof fn lemma_decimal_value_grows(s: Seq<char>, k: int)
    requires
        all_digits(s),
        0 <= k <= s.len(),
    ensures
        0 <= decimal_value(s.take(k)) <= decimal_value(s),
    decreases s.len() - k,
{
    if k == s.len() {
        assert(s.take(k) =~= s);
        lemma_decimal_value_nonnegative(s);
    } else {
        lemma_decimal_value_grows(s.drop_last(), k);
        assert(s.drop_last().take(k) =~= s.take(k));
        assert(is_digit(s[s.len() - 1]));
    }
}

/// Digits denote no negative number.
pub proof fn lemma_decimal_value_nonnegative(s: Seq<char>)
    requires
        all_digits(s),
    ensures
        0 <= decimal_value(s),
    decreases s.len(),
{
    if s.len() > 0 {
        lemma_decimal_value_nonnegative(s.drop_last());
        assert(is_digit(s[s.len() - 1]));
    }
}

/// Reads the digits of `s` from position `from` to the end. Gives their value
/// where there is at least one, all are digits and the value is at most
/// `limit`.
fn read_magnitude(s: &str, from: usize, limit: u128) -> (r: Option<u128>)
    requires
        from <= s@.len(),
    ensures
        match r {
            Some(v) => v <= limit && magnitude_in(s@.skip(from as int)) == Some(v as int),
            None => match magnitude_in(s@.skip(from as int)) {
                Some(v) => v > limit,
                None => true,
            },
        },
{
    let len = s.unicode_len();
    let ghost digits = s@.skip(from as int);
    if from == len {
        return None;
    }
    let mut value: u128 = 0;
    let mut i: usize = from;
    while i < len
        invariant
            from <= i <= len,
            len == s@.len(),
            digits == s@.skip(from as int),
            all_digits(digits.take(i - from)),
            value == decimal_value(digits.take(i - from)),
            value <= limit,
        decreases len - i,
    {
        let c = s.get_char(i);
        assert(digits[i - from] == c);
        if !('0' <= c && c <= '9') {
            return None;
        }
        let d: u128 = (c as u32 - '0' as u32) as u128;
        assert(digits.take(i - from + 1).drop_last() =~= digits.take(i - from));
        assert(digits.take(i - from + 1).last() == c);
        assert(all_digits(digits.take(i - from + 1))) by {
            assert forall|j: int| 0 <= j < i - from + 1 implies is_digit(
                #[trigger] digits.take(i - from + 1)[j],
            ) by {
                if j < i - from {
                    assert(digits.take(i - from)[j] == digits.take(i - from + 1)[j]);
                }
            }
        }
        if limit < d || value > (limit - d) / 10 {
            proof {
                if all_digits(digits) {
                    lemma_decimal_value_grows(digits, i - from + 1);
                }
            }
            return None;
        }
        value = value * 10 + d;
        i = i + 1;
    }
    assert(digits.take(len - from) =~= digits);
    Some(value)
}

/// The unsigned number that `s` holds: an optional `+`, then decimal digits
/// only, at least one. `None` for any other text and for a number above
/// `usize::MAX`.
pub fn parse_usize(s: &str) -> (r: Option<usize>)
    ensures
        match r {
            Some(v) => unsigned_in(s@, usize::MAX as int) == Some(v as int),
            None => unsigned_in(s@, usize::MAX as int) is None,
        },
{
    let len = s.unicode_len();
    let from: usize = if len > 0 && s.get_char(0) == '+' {
        1
    } else {
        0
    };
    proof {
        assert(s@.skip(0) =~= s@);
        if from == 0 && len > 0 {
            assert(s@[0] != '+');
        }
    }
    match read_magnitude(s, from, usize::MAX as u128) {
        Some(v) => Some(v as usize),
        None => None,
    }
}

/// The signed number that `s` holds: an optional `+` or `-`, then decimal
/// digits only, at least one. `None` for any other text and for a number
/// outside the range of `i32`.
pub fn parse_i32(s: &str) -> (r: Option<i32>)
    ensures
        match r {
            Some(v) => signed_in(s@, i32::MIN as int, i32::MAX as int) == Some(v as int),
            None => signed_in(s@, i32::MIN as int, i32::MAX as int) is None,
        },
{
    let len = s.unicode_len();
    if len > 0 && s.get_char(0) == '-' {
        match read_magnitude(s, 1, 0x8000_0000) {
            Some(m) => {
                if m == 0x8000_0000 {
                    Some(i32::MIN)
                } else {
                    let magnitude: i32 = m as i32;
                    Some(-magnitude)
                }
            },
            None => None,
        }
    } else {
        let from: usize = if len > 0 && s.get_char(0) == '+' {
            1
        } else {
            0
        };
        proof {
            assert(s@.skip(0) =~= s@);
        }
        match read_magnitude(s, from, 0x7fff_ffff) {
            Some(m) => Some(m as i32),
            None => None,
        }
    }
}

/// The decimal digit of value `d`.
pub open spec fn digit_char(d: int) -> char {
    seq!['0', '1', '2', '3', '4', '5', '6', '7', '8', '9'][d]
}

/// The decimal digits of `n`, most significant first, with no leading zero
/// but for `0` itself.
pub open spec fn decimal_digits(n: nat) -> Seq<char>
    decreases n,
{
    if n < 10 {
        seq![digit_char(n as int)]
    } else {
        decimal_digits(n / 10).push(digit_char((n % 10) as int))
    }
}

/// What `decimal_digits` writes, `magnitude_in` reads back.
pub proof fn lemma_decimal_round_trip(n: nat)
    ensures
        magnitude_in(decimal_digits(n)) == Some(n as int),
        number_in(decimal_digits(n), false) == Some(n as int),
        number_in(decimal_digits(n), true) == Some(n as int),
    decreases n,
{
    let s = decimal_digits(n);
    if n < 10 {
        assert(s.drop_last() =~= Seq::<char>::empty());
        assert(decimal_value(s.drop_last()) == 0);
        assert(digit_value(digit_char(n as int)) == n);
        assert(is_digit(s[0]));
    } else {
        lemma_decimal_round_trip(n / 10);
        let head = decimal_digits(n / 10);
        assert(s.drop_last() =~= head);
        assert(digit_value(digit_char((n % 10) as int)) == n % 10);
        assert(is_digit(s.last()));
        assert forall|i: int| 0 <= i < s.len() implies is_digit(#[trigger] s[i]) by {
            if i < head.len() {
                assert(s[i] == head[i]);
            }
        }
    }
    assert(is_digit(s[0]));
}

/// The text of one decimal digit.
fn digit_text(d: usize) -> (text: &'static str)
    requires
        d < 10,
    ensures
        text@ == seq![digit_char(d as int)],
{
    proof {
        reveal_strlit("0");
        reveal_strlit("1");
        reveal_strlit("2");
        reveal_strlit("3");
        reveal_strlit("4");
        reveal_strlit("5");
        reveal_strlit("6");
        reveal_strlit("7");
        reveal_strlit("8");
        reveal_strlit("9");
    }
    let text = if d == 0 {
        "0"
    } else if d == 1 {
        "1"
    } else if d == 2 {
        "2"
    } else if d == 3 {
        "3"
    } else if d == 4 {
        "4"
    } else if d == 5 {
        "5"
    } else if d == 6 {
        "6"
    } else if d == 7 {
        "7"
    } else if d == 8 {
        "8"
    } else {
        "9"
    };
    assert(text@ =~= seq![digit_char(d as int)]);
    text
}

/// Appends the decimal digits of `n` to `out`.
pub fn push_decimal(out: &mut String, n: usize)
    ensures
        final(out)@ == old(out)@ + decimal_digits(n as nat),
    decreases n,
{
    if n >= 10 {
        push_decimal(out, n / 10);
    }
    out.append(digit_text(n % 10));
    assert(out@ =~= old(out)@ + decimal_digits(n as nat));
}

/// The decimal digits of `n` as a text.
pub fn decimal_text(n: usize) -> (text: String)
    ensures
        text@ == decimal_digits(n as nat),
{
    let mut text = String::new();
    push_decimal(&mut text, n);
    assert(Seq::<char>::empty() + decimal_digits(n as nat) =~= decimal_digits(n as nat));
    text
}

/// The decimal digits of `n`, with a `-` in front where `n` is below zero.
pub open spec fn signed_digits(n: int) -> Seq<char> {
    if n < 0 {
        seq!['-'] + decimal_digits((-n) as nat)
    } else {
        decimal_digits(n as nat)
    }
}

/// Appends the decimal digits of `n`, with a `-` in front where `n` is below
/// zero.
pub fn push_signed(out: &mut String, n: i32)
    ensures
        final(out)@ == old(out)@ + signed_digits(n as int),
{
    if n < 0 {
        out.append("-");
        proof {
            reveal_strlit("-");
        }
        let magnitude: usize = if n == i32::MIN {
            0x8000_0000
        } else {
            (-n) as usize
        };
        push_decimal(out, magnitude);
        assert(out@ =~= old(out)@ + signed_digits(n as int));
    } else {
        push_decimal(out, n as usize);
    }
}

/// The texts that the strings `v` hold.
pub open spec fn texts(v: Seq<String>) -> Seq<Seq<char>> {
    Seq::new(v.len(), |k: int| v[k]@)
}

/// The pieces `parts` written one after another with a comma between each two.
pub open spec fn join_commas(parts: Seq<Seq<char>>) -> Seq<char>
    decreases parts.len(),
{
    if parts.len() == 0 {
        Seq::empty()
    } else if parts.len() == 1 {
        parts[0]
    } else {
        join_commas(parts.drop_last()) + seq![','] + parts.last()
    }
}

/// Whether `s` holds no comma.
pub open spec fn comma_free(s: Seq<char>) -> bool {
    forall|i: int| 0 <= i < s.len() ==> #[trigger] s[i] != ','
}

/// Whether `parts` are the pieces of `s` between its commas: at least one
/// piece, none with a comma in it, and `s` again when joined by commas. An
/// empty `s` has the one piece that is empty.
pub open spec fn is_comma_split(parts: Seq<Seq<char>>, s: Seq<char>) -> bool {
    &&& parts.len() >= 1
    &&& join_commas(parts) == s
    &&& forall|k: int| 0 <= k < parts.len() ==> comma_free(#[trigger] parts[k])
}

/// The pieces `parts`, each followed by a comma.
pub open spec fn comma_terminated(parts: Seq<Seq<char>>) -> Seq<char>
    decreases parts.len(),
{
    if parts.len() == 0 {
        Seq::empty()
    } else {
        comma_terminated(parts.drop_last()) + parts.last() + seq![',']
    }
}

/// Joining one more piece on: what stood before it, each piece with its comma,
/// and then the piece.
pub proof fn lemma_join_last(parts: Seq<Seq<char>>, piece: Seq<char>)
    ensures
        join_commas(parts.push(piece)) == comma_terminated(parts) + piece,
    decreases parts.len(),
{
    let all = parts.push(piece);
    assert(all.drop_last() =~= parts);
    assert(all.last() == piece);
    if parts.len() == 0 {
        assert(join_commas(all) =~= comma_terminated(parts) + piece);
    } else {
        lemma_join_last(parts.drop_last(), parts.last());
        assert(parts.drop_last().push(parts.last()) =~= parts);
        assert(join_commas(all) =~= comma_terminated(parts) + piece);
    }
}

/// The pieces of `s` between its commas, in order: a comma ends a piece and
/// begins the next, any other character belongs to the piece that is open.
pub open spec fn pieces(s: Seq<char>) -> Seq<Seq<char>>
    decreases s.len(),
{
    if s.len() == 0 {
        seq![Seq::<char>::empty()]
    } else {
        let before = pieces(s.drop_last());
        if s.last() == ',' {
            before.push(Seq::<char>::empty())
        } else {
            before.drop_last().push(before.last().push(s.last()))
        }
    }
}

/// `pieces` cuts at the commas and nowhere else: its pieces hold no comma, and
/// joined by commas they are the text again.
pub proof fn lemma_pieces_split(s: Seq<char>)
    ensures
        is_comma_split(pieces(s), s),
    decreases s.len(),
{
    let parts = pieces(s);
    if s.len() == 0 {
        assert(join_commas(parts) =~= s);
        assert(comma_free(parts[0]));
    } else {
        let head = pieces(s.drop_last());
        lemma_pieces_split(s.drop_last());
        let front = head.drop_last();
        let open = head.last();
        assert(front.push(open) =~= head);
        lemma_join_last(front, open);
        if s.last() == ',' {
            lemma_join_last(head, Seq::<char>::empty());
            assert(head.drop_last() =~= front);
            assert(comma_terminated(head) =~= comma_terminated(front) + open + seq![',']);
            assert(join_commas(parts) =~= s.drop_last().push(','));
            assert(s.drop_last().push(',') =~= s);
            assert forall|k: int| 0 <= k < parts.len() implies comma_free(#[trigger] parts[k]) by {
                if k < head.len() {
                    assert(parts[k] == head[k]);
                }
            }
        } else {
            lemma_join_last(front, open.push(s.last()));
            assert(comma_terminated(front) + open.push(s.last()) =~= (comma_terminated(front)
                + open).push(s.last()));
            assert(s.drop_last().push(s.last()) =~= s);
            assert forall|k: int| 0 <= k < parts.len() implies comma_free(#[trigger] parts[k]) by {
                if k < front.len() {
                    assert(parts[k] == head[k]);
                } else {
                    assert(comma_free(head[head.len() - 1]));
                    assert forall|j: int| 0 <= j < parts[k].len() implies #[trigger] parts[k][j]
                        != ',' by {
                        if j < open.len() {
                            assert(parts[k][j] == open[j]);
                        }
                    }
                }
            }
        }
    }
}

/// The pieces of `s` between its commas, in order. A text without a comma is
/// one piece, the empty text too.
pub fn split_commas(s: &str) -> (parts: Vec<String>)
    ensures
        texts(parts@) == pieces(s@),
        is_comma_split(texts(parts@), s@),
{
    let len = s.unicode_len();
    let mut parts: Vec<String> = Vec::new();
    let mut start: usize = 0;
    let mut i: usize = 0;
    assert(s@.take(0) =~= Seq::<char>::empty());
    assert(texts(parts@).push(s@.subrange(0, 0)) =~= pieces(s@.take(0)));
    while i < len
        invariant
            start <= i <= len,
            len == s@.len(),
            texts(parts@).push(s@.subrange(start as int, i as int)) == pieces(s@.take(i as int)),
        decreases len - i,
    {
        let c = s.get_char(i);
        let ghost done = texts(parts@);
        let ghost open = s@.subrange(start as int, i as int);
        proof {
            assert(s@.take(i + 1).drop_last() =~= s@.take(i as int));
            assert(s@.take(i + 1).last() == c);
            assert(done.push(open).drop_last() =~= done);
        }
        if c == ',' {
            let piece = String::from_str(s.substring_char(start, i));
            parts.push(piece);
            start = i + 1;
            proof {
                assert(texts(parts@) =~= done.push(open));
                assert(s@.subrange(start as int, i + 1) =~= Seq::<char>::empty());
            }
        } else {
            proof {
                assert(s@.subrange(start as int, i + 1) =~= open.push(c));
            }
        }
        i = i + 1;
    }
    let piece = String::from_str(s.substring_char(start, len));
    let ghost done = texts(parts@);
    parts.push(piece);
    proof {
        assert(texts(parts@) =~= done.push(s@.subrange(start as int, len as int)));
        assert(s@.take(len as int) =~= s@);
        lemma_pieces_split(s@);
    }
    parts
}

} // verus!
