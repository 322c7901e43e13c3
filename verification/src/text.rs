//! Plain text: comparing, cutting, padding and joining strings, and writing
//! integers in decimal.
//!
//! Every function is specified over the characters of its arguments.

use vstd::prelude::*;
use vstd::string::*;
use vstd::utf8::*;

verus! {

/// `n` copies of one character.
pub open spec fn repeated(c: char, n: nat) -> Seq<char> {
    Seq::new(n, |i: int| c)
}

/// `s` followed by as many spaces as bring it to `width` characters.
pub open spec fn padded_right(s: Seq<char>, width: nat) -> Seq<char> {
    if s.len() < width {
        s + repeated(' ', (width - s.len()) as nat)
    } else {
        s
    }
}

/// `s` preceded by as many spaces as bring it to `width` characters.
pub open spec fn padded_left(s: Seq<char>, width: nat) -> Seq<char> {
    if s.len() < width {
        repeated(' ', (width - s.len()) as nat) + s
    } else {
        s
    }
}

/// The first `n` characters of `s`, or all of it where it is shorter.
pub open spec fn first_chars(s: Seq<char>, n: nat) -> Seq<char> {
    if s.len() <= n {
        s
    } else {
        s.take(n as int)
    }
}

/// The decimal digit of a number below ten.
pub open spec fn digit(d: nat) -> char {
    if d == 0 {
        '0'
    } else if d == 1 {
        '1'
    } else if d == 2 {
        '2'
    } else if d == 3 {
        '3'
    } else if d == 4 {
        '4'
    } else if d == 5 {
        '5'
    } else if d == 6 {
        '6'
    } else if d == 7 {
        '7'
    } else if d == 8 {
        '8'
    } else {
        '9'
    }
}

/// A natural number in decimal, without leading zeros.
pub open spec fn decimal(n: nat) -> Seq<char>
    decreases n,
{
    if n < 10 {
        seq![digit(n)]
    } else {
        decimal(n / 10).push(digit(n % 10))
    }
}

/// An integer in decimal, with a minus sign where it is negative.
pub open spec fn signed_decimal(n: int) -> Seq<char> {
    if n < 0 {
        seq!['-'] + decimal((-n) as nat)
    } else {
        decimal(n as nat)
    }
}

/// The number that a sequence of decimal digits stands for.
pub open spec fn decimal_value(s: Seq<char>) -> int
    decreases s.len(),
{
    if s.len() == 0 {
        0
    } else {
        decimal_value(s.drop_last()) * 10 + (s.last() as int - '0' as int)
    }
}

/// The concatenation of a sequence of texts.
pub open spec fn concatenated(parts: Seq<Seq<char>>) -> Seq<char>
    decreases parts.len(),
{
    if parts.len() == 0 {
        Seq::empty()
    } else {
        concatenated(parts.drop_last()) + parts.last()
    }
}

/// A sequence of texts with `separator` between each two neighbours.
pub open spec fn joined(parts: Seq<Seq<char>>, separator: Seq<char>) -> Seq<char>
    decreases parts.len(),
{
    if parts.len() == 0 {
        Seq::empty()
    } else if parts.len() == 1 {
        parts[0]
    } else {
        joined(parts.drop_last(), separator) + separator + parts.last()
    }
}

/// What each string of a sequence holds.
pub open spec fn texts(strings: Seq<String>) -> Seq<Seq<char>> {
    Seq::new(strings.len(), |i: int| strings[i]@)
}

/// The characters of a string slice, in order.
pub fn chars_of(s: &str) -> (chars: Vec<char>)
    ensures
        chars@ == s@,
{
    let mut chars: Vec<char> = Vec::new();
    for c in it: s.chars()
        invariant
            chars@.len() == it.index(),
            it.seq() == s@,
            forall|i: int| 0 <= i < chars@.len() ==> chars@[i] == it.seq()[i],
    {
        chars.push(c);
    }
    chars
}

/// Whether two string slices hold the same characters.
pub fn same_text(a: &str, b: &str) -> (same: bool)
    ensures
        same == (a@ == b@),
{
    let left: Vec<char> = chars_of(a);
    let right: Vec<char> = chars_of(b);
    if left.len() != right.len() {
        return false;
    }
    let mut i: usize = 0;
    while i < left.len()
        invariant
            i <= left@.len(),
            left@ == a@,
            right@ == b@,
            left@.len() == right@.len(),
            forall|j: int| 0 <= j < i ==> left@[j] == right@[j],
        decreases left@.len() - i,
    {
        if left[i] != right[i] {
            return false;
        }
        i += 1;
    }
    assert(a@ =~= b@);
    true
}

/// Appends `n` copies of the one character that `c` holds.
pub fn push_repeated(line: &mut String, c: &str, n: usize)
    requires
        c@.len() == 1,
    ensures
        final(line)@ == old(line)@ + repeated(c@[0], n as nat),
{
    let mut done: usize = 0;
    let ghost start = line@;
    assert(start =~= start + repeated(c@[0], 0));
    while done < n
        invariant
            done <= n,
            c@.len() == 1,
            line@ == start + repeated(c@[0], done as nat),
        decreases n - done,
    {
        line.append(c);
        done += 1;
        assert(line@ =~= start + repeated(c@[0], done as nat));
    }
}

/// A line of `n` copies of the one character that `c` holds.
pub fn rule(c: &str, n: usize) -> (line: String)
    requires
        c@.len() == 1,
    ensures
        line@ == repeated(c@[0], n as nat),
{
    let mut line: String = String::new();
    push_repeated(&mut line, c, n);
    assert(line@ =~= repeated(c@[0], n as nat));
    line
}

/// `s`, left-aligned in a column of `width` characters.
pub fn pad_right(s: &str, width: usize) -> (padded: String)
    ensures
        padded@ == padded_right(s@, width as nat),
{
    let mut padded: String = s.to_owned();
    let len: usize = s.unicode_len();
    if len < width {
        proof {
            reveal_strlit(" ");
        }
        push_repeated(&mut padded, " ", width - len);
    }
    padded
}

/// `s`, right-aligned in a column of `width` characters.
pub fn pad_left(s: &str, width: usize) -> (padded: String)
    ensures
        padded@ == padded_left(s@, width as nat),
{
    let len: usize = s.unicode_len();
    if len < width {
        proof {
            reveal_strlit(" ");
        }
        let mut padded: String = rule(" ", width - len);
        padded.append(s);
        padded
    } else {
        s.to_owned()
    }
}

/// The first `n` characters of `s`, or all of it where it is shorter.
pub fn cut(s: &str, n: usize) -> (short: String)
    ensures
        short@ == first_chars(s@, n as nat),
{
    if s.unicode_len() <= n {
        s.to_owned()
    } else {
        let front: &str = s.substring_char(0, n);
        assert(front@ =~= s@.take(n as int));
        front.to_owned()
    }
}

/// The digit of a number below ten, as a string slice.
fn digit_text(d: u64) -> (text: &'static str)
    requires
        d < 10,
    ensures
        text@ == seq![digit(d as nat)],
{
    proof {
        reveal_strlit("0");
        reveal_strlit("1");
        reveal_strlit("2");
        reveal_strlit("3");
        reveal_strlit("4");
        reveal_strlit("5");
        reveal_strlit("6");
        reveal_strlit("7");
        reveal_strlit("8");
        reveal_strlit("9");
    }
    let text: &'static str = match d {
        0 => "0",
        1 => "1",
        2 => "2",
        3 => "3",
        4 => "4",
        5 => "5",
        6 => "6",
        7 => "7",
        8 => "8",
        _ => "9",
    };
    assert(text@ =~= seq![digit(d as nat)]);
    text
}

/// A number in decimal.
pub fn unsigned_text(n: u64) -> (text: String)
    ensures
        text@ == decimal(n as nat),
    decreases n,
{
    if n < 10 {
        digit_text(n).to_owned()
    } else {
        let mut text: String = unsigned_text(n / 10);
        text.append(digit_text(n % 10));
        assert(text@ =~= decimal(n as nat));
        text
    }
}

/// An integer in decimal, with a minus sign where it is negative.
pub fn signed_text(n: i64) -> (text: String)
    ensures
        text@ == signed_decimal(n as int),
{
    if n < 0 {
        proof {
            reveal_strlit("-");
        }
        let mut text: String = "-".to_owned();
        let size: u64 = if n == i64::MIN {
            9_223_372_036_854_775_808u64
        } else {
            (-n) as u64
        };
        let digits: String = unsigned_text(size);
        text.append(digits.as_str());
        assert(text@ =~= signed_decimal(n as int));
        text
    } else {
        unsigned_text(n as u64)
    }
}

/// The concatenation of a list of strings.
pub fn chain(parts: &Vec<String>) -> (whole: String)
    ensures
        whole@ == concatenated(texts(parts@)),
{
    let mut whole: String = String::new();
    let mut i: usize = 0;
    while i < parts.len()
        invariant
            i <= parts@.len(),
            whole@ == concatenated(texts(parts@).take(i as int)),
        decreases parts@.len() - i,
    {
        whole.append(parts[i].as_str());
        i += 1;
        assert(texts(parts@).take(i as int).drop_last() =~= texts(parts@).take(i - 1));
    }
    assert(texts(parts@).take(i as int) =~= texts(parts@));
    whole
}

/// A list of strings with `separator` between each two neighbours.
pub fn join(parts: &Vec<String>, separator: &str) -> (whole: String)
    ensures
        whole@ == joined(texts(parts@), separator@),
{
    let mut whole: String = String::new();
    let mut i: usize = 0;
    while i < parts.len()
        invariant
            i <= parts@.len(),
            whole@ == joined(texts(parts@).take(i as int), separator@),
        decreases parts@.len() - i,
    {
        if i > 0 {
            whole.append(separator);
        }
        whole.append(parts[i].as_str());
        i += 1;
        assert(texts(parts@).take(i as int).drop_last() =~= texts(parts@).take(i - 1));
        assert(whole@ =~= joined(texts(parts@).take(i as int), separator@));
    }
    assert(texts(parts@).take(i as int) =~= texts(parts@));
    whole
}

/// `s` as an owned string.
pub fn owned(s: &str) -> (text: String)
    ensures
        text@ == s@,
{
    s.to_owned()
}

/// Decimal text reads back: the digits of a number stand for that number.
pub proof fn decimal_reads_back(n: nat)
    ensures
        decimal_value(decimal(n)) == n,
        decimal(n).len() >= 1,
        forall|i: int| 0 <= i < decimal(n).len() ==> '0' <= #[trigger] decimal(n)[i] <= '9',
    decreases n,
{
    reveal_with_fuel(decimal_value, 2);
    if n >= 10 {
        decimal_reads_back(n / 10);
        assert(decimal(n).drop_last() =~= decimal(n / 10));
    } else {
        assert(seq![digit(n)].drop_last() =~= Seq::<char>::empty());
    }
}

/// Two numbers with the same decimal text are the same number.
pub proof fn decimal_is_injective(a: nat, b: nat)
    requires
        decimal(a) == decimal(b),
    ensures
        a == b,
{
    decimal_reads_back(a);
    decimal_reads_back(b);
}

/// Whether the bytes of a text from `from` up to `to` are whole characters.
pub open spec fn sliceable(s: Seq<char>, from: int, to: int) -> bool {
    &&& from <= to
    &&& is_char_boundary(encode_utf8(s), from)
    &&& is_char_boundary(encode_utf8(s), to)
}

/// The characters that the bytes of a text from `from` up to `to` are.
pub open spec fn byte_slice(s: Seq<char>, from: int, to: int) -> Seq<char> {
    decode_utf8(encode_utf8(s).subrange(from, to))
}

/// A boundary between characters lies within the bytes.
proof fn lemma_boundary_in_range(bytes: Seq<u8>, index: int)
    requires
        valid_utf8(bytes),
        is_char_boundary(bytes, index),
    ensures
        0 <= index <= bytes.len(),
    decreases bytes.len(),
{
    if index != 0 {
        lemma_boundary_in_range(pop_first_scalar(bytes), index - length_of_first_scalar(bytes));
    }
}

/// A boundary between characters stays one when the bytes before an earlier
/// boundary are cut off.
proof fn lemma_boundary_after_cut(bytes: Seq<u8>, cut: int, index: int)
    requires
        valid_utf8(bytes),
        is_char_boundary(bytes, cut),
        is_char_boundary(bytes, index),
        cut <= index,
    ensures
        valid_utf8(bytes.subrange(cut, bytes.len() as int)),
        is_char_boundary(bytes.subrange(cut, bytes.len() as int), index - cut),
{
    let rest = bytes.subrange(cut, bytes.len() as int);
    lemma_boundary_in_range(bytes, cut);
    lemma_boundary_in_range(bytes, index);
    valid_utf8_split(bytes, cut);
    if index < bytes.len() {
        is_char_boundary_iff_not_is_continuation_byte(bytes, index);
        is_char_boundary_iff_not_is_continuation_byte(rest, index - cut);
        assert(rest[index - cut] == bytes[index]);
    } else {
        is_char_boundary_start_end_of_seq(rest);
    }
}

/// Whether the bytes of `s` from `from` up to `to` are whole characters.
pub fn can_slice(s: &str, from: usize, to: usize) -> (yes: bool)
    ensures
        yes == sliceable(s@, from as int, to as int),
{
    from <= to && s.is_char_boundary(from) && s.is_char_boundary(to)
}

/// The characters that the bytes of `s` from `from` up to `to` are.
pub fn slice(s: &str, from: usize, to: usize) -> (part: &str)
    requires
        sliceable(s@, from as int, to as int),
    ensures
        part@ == byte_slice(s@, from as int, to as int),
{
    let ghost bytes = s.spec_bytes();
    proof {
        encode_utf8_valid_utf8(s@);
        lemma_boundary_in_range(bytes, from as int);
        lemma_boundary_in_range(bytes, to as int);
        lemma_boundary_after_cut(bytes, from as int, to as int);
    }
    let (_front, rest) = s.split_at(from);
    assert(rest.spec_bytes() =~= bytes.subrange(from as int, bytes.len() as int));
    let (part, _back) = rest.split_at(to - from);
    assert(part.spec_bytes() =~= bytes.subrange(from as int, to as int));
    proof {
        encode_utf8_decode_utf8(part@);
    }
    part
}

/// Where a text is ASCII, bytes are characters: every slice of its length can be
/// taken, and holds the characters at those places.
pub proof fn ascii_slices_are_characters(s: Seq<char>, from: int, to: int)
    requires
        is_ascii_chars(s),
        0 <= from <= to <= s.len(),
    ensures
        sliceable(s, from, to),
        byte_slice(s, from, to) == s.subrange(from, to),
{
    let bytes = encode_utf8(s);
    is_ascii_chars_encode_utf8(s);
    encode_utf8_valid_utf8(s);
    lemma_ascii_boundary(s, from);
    lemma_ascii_boundary(s, to);
    let part = s.subrange(from, to);
    assert forall|i: int| 0 <= i < part.len() implies 0 <= #[trigger] part[i] as u32 <= 127 by {
        assert(part[i] == s[from + i]);
    }
    assert(is_ascii_chars(part));
    is_ascii_chars_encode_utf8(part);
    assert(encode_utf8(part) =~= bytes.subrange(from, to));
    encode_utf8_decode_utf8(part);
}

/// Every place in an ASCII text is a boundary between characters.
proof fn lemma_ascii_boundary(s: Seq<char>, index: int)
    requires
        is_ascii_chars(s),
        0 <= index <= s.len(),
    ensures
        is_char_boundary(encode_utf8(s), index),
{
    let bytes = encode_utf8(s);
    is_ascii_chars_encode_utf8(s);
    encode_utf8_valid_utf8(s);
    if index < s.len() {
        is_char_boundary_iff_not_is_continuation_byte(bytes, index);
        assert(bytes[index] == s[index] as u8);
        assert(s[index] as u32 <= 127);
        let b = bytes[index];
        assert(b <= 127);
        assert(!is_continuation_byte(b));
    } else {
        is_char_boundary_start_end_of_seq(bytes);
    }
}

/// Decimal text has no leading zero, but for zero itself.
pub proof fn decimal_has_no_leading_zero(n: nat)
    ensures
        n > 0 ==> decimal(n)[0] != '0',
        decimal(0) == seq!['0'],
    decreases n,
{
    decimal_reads_back(n);
    if n >= 10 {
        decimal_reads_back(n / 10);
        decimal_has_no_leading_zero(n / 10);
        assert(decimal(n)[0] == decimal(n / 10)[0]);
    }
}

/// The decimal text of an integer reads back: a minus sign and the digits of its size
/// where it is negative, else its digits alone.
pub proof fn signed_decimal_reads_back(n: int)
    ensures
        n < 0 ==> signed_decimal(n).len() > 1 && signed_decimal(n)[0] == '-' && decimal_value(
            signed_decimal(n).skip(1),
        ) == -n,
        n >= 0 ==> decimal_value(signed_decimal(n)) == n,
        n >= 0 ==> signed_decimal(n)[0] != '-',
{
    let size = (if n < 0 { -n } else { n }) as nat;
    decimal_reads_back(size);
    if n < 0 {
        assert(signed_decimal(n).skip(1) =~= decimal(size));
    } else {
        assert('0' <= decimal(size)[0] <= '9');
    }
}

/// A text in a column keeps its characters and fills the column: on the left where it is
/// left-aligned, on the right where it is right-aligned, and spaces stand beside it. A
/// text that is too long for the column stays as it is.
pub proof fn columns_hold_their_text(s: Seq<char>, width: nat)
    ensures
        padded_right(s, width).len() == if s.len() < width { width } else { s.len() },
        padded_right(s, width).take(s.len() as int) == s,
        forall|i: int|
            s.len() <= i < padded_right(s, width).len() ==> #[trigger] padded_right(s, width)[i]
                == ' ',
        padded_left(s, width).len() == if s.len() < width { width } else { s.len() },
        padded_left(s, width).skip(padded_left(s, width).len() - s.len()) == s,
        forall|i: int|
            0 <= i < padded_left(s, width).len() - s.len() ==> #[trigger] padded_left(s, width)[i]
                == ' ',
{
    assert(padded_right(s, width).take(s.len() as int) =~= s);
    assert(padded_left(s, width).skip(padded_left(s, width).len() - s.len()) =~= s);
}

/// What is cut off is cut off at the end, and only what is too long is cut.
pub proof fn cutting_keeps_the_front(s: Seq<char>, n: nat)
    ensures
        first_chars(s, n).len() == if s.len() < n { s.len() } else { n },
        forall|i: int| 0 <= i < first_chars(s, n).len() ==> #[trigger] first_chars(s, n)[i] == s[i],
{
}

/// A rule is as long as asked for, and all of one character.
pub proof fn rules_are_of_one_character(c: char, n: nat)
    ensures
        repeated(c, n).len() == n,
        forall|i: int| 0 <= i < n ==> #[trigger] repeated(c, n)[i] == c,
{
}

/// Parts that are chained stand one after another: what stands before a part is the parts
/// before it, what stands after it the parts after it.
pub proof fn chained_parts_stand_in_order(parts: Seq<Seq<char>>, i: int)
    requires
        0 <= i < parts.len(),
    ensures
        concatenated(parts) == concatenated(parts.take(i)) + parts[i] + concatenated(
            parts.skip(i + 1),
        ),
    decreases parts.len(),
{
    if i == parts.len() - 1 {
        assert(parts.take(i) =~= parts.drop_last());
        assert(parts.skip(i + 1) =~= Seq::<Seq<char>>::empty());
        assert(concatenated(parts) =~= concatenated(parts.take(i)) + parts[i] + concatenated(
            parts.skip(i + 1),
        ));
    } else {
        let rest = parts.drop_last();
        chained_parts_stand_in_order(rest, i);
        assert(rest.take(i) =~= parts.take(i));
        assert(rest.skip(i + 1) =~= parts.skip(i + 1).drop_last());
        assert(concatenated(parts) =~= concatenated(parts.take(i)) + parts[i] + concatenated(
            parts.skip(i + 1),
        ));
    }
}

} // verus!
