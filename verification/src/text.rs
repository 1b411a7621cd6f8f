//! Text building: padding, repetition, decimal numbers, truncation, lists.

use vstd::prelude::*;
use vstd::string::*;
use vstd::utf8::*;

verus! {

/// `n` times the character `c`.
pub open spec fn repeated(c: char, n: nat) -> Seq<char> {
    Seq::new(n, |i: int| c)
}

/// `s` in a column `width` characters wide, against its left edge. A longer
/// `s` stays whole.
pub open spec fn pad_right(s: Seq<char>, width: nat) -> Seq<char> {
    if s.len() < width {
        s + repeated(' ', (width - s.len()) as nat)
    } else {
        s
    }
}

/// `s` in a column `width` characters wide, against its right edge.
pub open spec fn pad_left(s: Seq<char>, width: nat) -> Seq<char> {
    if s.len() < width {
        repeated(' ', (width - s.len()) as nat) + s
    } else {
        s
    }
}

/// The character of a decimal digit.
pub open spec fn digit(d: nat) -> char {
    (48 + d) as char
}

/// `n` in decimal, without leading zeros.
pub open spec fn decimal(n: nat) -> Seq<char>
    decreases n,
{
    if n < 10 {
        seq![digit(n)]
    } else {
        decimal(n / 10).push(digit(n % 10))
    }
}

/// `i` in decimal, with a minus sign where it is negative.
pub open spec fn signed_decimal(i: int) -> Seq<char> {
    if i < 0 {
        seq!['-'] + decimal((-i) as nat)
    } else {
        decimal(i as nat)
    }
}

/// `s` cut to `width` characters, the last of which is an ellipsis where
/// anything was cut off.
pub open spec fn truncated(s: Seq<char>, width: nat) -> Seq<char> {
    if s.len() <= width {
        s
    } else if width <= 1 {
        seq!['…']
    } else {
        s.take(width - 1).push('…')
    }
}

/// The names one after the other, a comma and a space between two of them.
pub open spec fn comma_list(names: Seq<Seq<char>>) -> Seq<char>
    decreases names.len(),
{
    if names.len() == 0 {
        Seq::empty()
    } else {
        let head = names.drop_last();
        if head.len() == 0 {
            names.last()
        } else {
            comma_list(head) + ", "@ + names.last()
        }
    }
}

/// Where to cut `s` after `limit` bytes: there, or at its end if it is shorter.
pub open spec fn byte_limit(s: Seq<char>, limit: nat) -> nat {
    let len = encode_utf8(s).len();
    if len < limit {
        len
    } else {
        limit
    }
}

/// The first `limit` bytes of `s` end between two of its characters.
pub open spec fn splits_cleanly(s: Seq<char>, limit: nat) -> bool {
    is_char_boundary(encode_utf8(s), byte_limit(s, limit) as int)
}

/// The characters that the first `limit` bytes of `s` encode.
pub open spec fn byte_prefix(s: Seq<char>, limit: nat) -> Seq<char> {
    decode_utf8(encode_utf8(s).subrange(0, byte_limit(s, limit) as int))
}

/// `part` stands somewhere in `whole`.
pub open spec fn occurs_in(part: Seq<char>, whole: Seq<char>) -> bool {
    exists|at: int|
        0 <= at && at + part.len() <= whole.len() && (#[trigger] whole.skip(at)).take(
            part.len() as int,
        ) == part
}

/// What stands in a text still does when more text is put around it.
pub proof fn occurs_in_longer(
    part: Seq<char>,
    whole: Seq<char>,
    above: Seq<char>,
    below: Seq<char>,
)
    requires
        occurs_in(part, whole),
    ensures
        occurs_in(part, above + whole + below),
{
    let at = choose|at: int|
        0 <= at && at + part.len() <= whole.len() && (#[trigger] whole.skip(at)).take(
            part.len() as int,
        ) == part;
    let longer = above + whole + below;
    assert(longer.skip(above.len() + at).take(part.len() as int) =~= whole.skip(at).take(
        part.len() as int,
    ));
}

/// A text stands in itself.
pub proof fn occurs_in_itself(part: Seq<char>)
    ensures
        occurs_in(part, part),
{
    assert(part.skip(0).take(part.len() as int) =~= part);
}

/// A cut text of at least one column never overruns it: it has the length of
/// the text or of the column, whichever is less.
pub proof fn truncate_fits(s: Seq<char>, width: nat)
    requires
        width >= 1,
    ensures
        truncated(s, width).len() == if s.len() <= width {
            s.len()
        } else {
            width
        },
{
}

/// Cutting a cut text again at the same width changes nothing.
pub proof fn truncate_twice(s: Seq<char>, width: nat)
    requires
        width >= 1,
    ensures
        truncated(truncated(s, width), width) == truncated(s, width),
{
}

/// What stands before the ellipsis of a cut text is how the text begins.
pub proof fn truncate_keeps_start(s: Seq<char>, width: nat)
    requires
        1 <= width < s.len(),
    ensures
        truncated(s, width).drop_last() == s.take(width - 1),
        truncated(s, width).last() == '…',
{
    assert(truncated(s, width).drop_last() =~= s.take(width - 1));
}

/// A number is never written with more digits than a larger one.
pub proof fn decimal_len_grows(m: nat, n: nat)
    requires
        m <= n,
    ensures
        1 <= decimal(m).len() <= decimal(n).len(),
    decreases n,
{
    if n >= 10 {
        if m >= 10 {
            decimal_len_grows(m / 10, n / 10);
        } else {
            decimal_len_grows(n / 10, n / 10);
        }
    }
}

/// An ASCII text splits cleanly wherever it is cut, and its first bytes are
/// its first characters.
pub proof fn ascii_byte_prefix(s: Seq<char>, limit: nat)
    requires
        is_ascii_chars(s),
    ensures
        splits_cleanly(s, limit),
        byte_prefix(s, limit) == s.take(
            if s.len() < limit {
                s.len() as int
            } else {
                limit as int
            },
        ),
{
    is_ascii_chars_encode_utf8(s);
    encode_utf8_valid_utf8(s);
    let bytes = encode_utf8(s);
    let n = byte_limit(s, limit) as int;
    let head = s.take(n);
    if n < bytes.len() {
        is_ascii_chars_nat_bound(s);
        let c = s[n];
        assert(bytes[n] == c as u8);
        is_char_boundary_iff_not_is_continuation_byte(bytes, n);
        assert(!is_continuation_byte(bytes[n]));
    } else {
        is_char_boundary_start_end_of_seq(bytes);
    }
    is_ascii_chars_encode_utf8(head);
    assert(encode_utf8(head) =~= bytes.subrange(0, n));
    encode_utf8_decode_utf8(head);
}

/// What stands between two texts begins behind the first of them.
pub(crate) proof fn lemma_behind(above: Seq<char>, part: Seq<char>, below: Seq<char>)
    ensures
        part.is_prefix_of((above + part + below).skip(above.len() as int)),
{
}

/// Text put together in another order is the same text.
pub(crate) proof fn lemma_regroup(a: Seq<char>, b: Seq<char>, c: Seq<char>)
    ensures
        a + b + c == a + (b + c),
{
    assert(a + b + c =~= a + (b + c));
}

/// Behind the first of two texts stands the second.
pub(crate) proof fn lemma_tail(above: Seq<char>, part: Seq<char>)
    ensures
        above.is_prefix_of(above + part),
        (above + part).skip(above.len() as int) == part,
{
    assert((above + part).skip(above.len() as int) =~= part);
}

/// The number that a row of decimal digits stands for.
pub open spec fn number_in(digits: Seq<char>) -> int
    decreases digits.len(),
{
    if digits.len() == 0 {
        0
    } else {
        10 * number_in(digits.drop_last()) + (digits.last() as int - '0' as int)
    }
}

/// A number written in decimal reads back as itself. It is written in digits
/// alone, and begins with a zero only where it is zero.
pub proof fn decimal_reads_back(n: nat)
    ensures
        number_in(decimal(n)) == n,
        forall|i: int| 0 <= i < decimal(n).len() ==> '0' <= #[trigger] decimal(n)[i] <= '9',
        decimal(n).len() > 0,
        decimal(n)[0] == '0' <==> n == 0,
    decreases n,
{
    if n < 10 {
        assert(decimal(n).drop_last() =~= Seq::empty());
        assert(number_in(decimal(n).drop_last()) == 0);
    } else {
        decimal_reads_back(n / 10);
        assert(decimal(n).drop_last() =~= decimal(n / 10));
        assert forall|i: int| 0 <= i < decimal(n).len() implies '0' <= #[trigger] decimal(n)[i]
            <= '9' by {
            if i < decimal(n / 10).len() {
                assert(decimal(n)[i] == decimal(n / 10)[i]);
            }
        }
    }
}

/// A number with a sign reads back as itself: behind the minus sign of a
/// negative number stands what it falls short of zero.
pub proof fn signed_decimal_reads_back(i: int)
    ensures
        signed_decimal(i).len() > 0,
        signed_decimal(i)[0] == '-' <==> i < 0,
        i < 0 ==> number_in(signed_decimal(i).skip(1)) == -i,
        i >= 0 ==> number_in(signed_decimal(i)) == i,
{
    if i < 0 {
        decimal_reads_back((-i) as nat);
        assert(signed_decimal(i).skip(1) =~= decimal((-i) as nat));
    } else {
        decimal_reads_back(i as nat);
    }
}

/// A repeated character fills its text.
pub proof fn repeated_fills(c: char, n: nat)
    ensures
        repeated(c, n).len() == n,
        forall|i: int| 0 <= i < n ==> #[trigger] repeated(c, n)[i] == c,
{
}

/// A column holds its text whole, at the edge that it is aligned to, and
/// otherwise spaces. It is as wide as asked for, or as its text where that is
/// wider.
pub proof fn columns_hold_their_text(s: Seq<char>, width: nat)
    ensures
        s.is_prefix_of(pad_right(s, width)),
        s.is_suffix_of(pad_left(s, width)),
        forall|i: int|
            s.len() <= i < pad_right(s, width).len() ==> #[trigger] pad_right(s, width)[i] == ' ',
        forall|i: int|
            0 <= i < pad_left(s, width).len() - s.len() ==> #[trigger] pad_left(s, width)[i] == ' ',
        s.len() <= width ==> pad_right(s, width).len() == width && pad_left(s, width).len()
            == width,
        s.len() >= width ==> pad_right(s, width) == s && pad_left(s, width) == s,
{
}

/// A text that fits is not cut. One that does not fit ends in an ellipsis, and
/// what stands before that is how the text begins.
pub proof fn truncate_cuts_what_is_too_long(s: Seq<char>, width: nat)
    ensures
        s.len() <= width ==> truncated(s, width) == s,
        s.len() > width ==> truncated(s, width).len() == (if width == 0 {
            1
        } else {
            width
        }) && truncated(s, width).last() == '…' && truncated(s, width).drop_last().is_prefix_of(s),
{
}

/// A list is its names joined: nothing of no names, the name itself of one,
/// and each further name behind a comma and a space.
pub proof fn lists_join_their_names(names: Seq<Seq<char>>, name: Seq<char>)
    ensures
        comma_list(Seq::<Seq<char>>::empty()).len() == 0,
        comma_list(seq![name]) == name,
        names.len() > 0 ==> comma_list(names.push(name)) == comma_list(names) + seq![',', ' ']
            + name,
{
    reveal_strlit(", ");
    assert(", "@ =~= seq![',', ' ']);
    assert(names.push(name).drop_last() =~= names);
}

/// Every name of a list stands in it, however many there are.
pub proof fn listed_names_are_shown(names: Seq<Seq<char>>, i: int)
    requires
        0 <= i < names.len(),
    ensures
        occurs_in(names[i], comma_list(names)),
    decreases names.len(),
{
    let head = names.drop_last();
    let none = Seq::<char>::empty();
    if head.len() == 0 {
        occurs_in_itself(names[i]);
    } else if i < head.len() {
        assert(head[i] == names[i]);
        listed_names_are_shown(head, i);
        occurs_in_longer(names[i], comma_list(head), none, ", "@ + names.last());
        assert(none + comma_list(head) + (", "@ + names.last()) =~= comma_list(names));
    } else {
        occurs_in_itself(names[i]);
        occurs_in_longer(names[i], names[i], comma_list(head) + ", "@, none);
        assert(comma_list(head) + ", "@ + names[i] + none =~= comma_list(names));
    }
}

proof fn lemma_encode_take(s: Seq<char>, k: int)
    requires
        0 <= k <= s.len(),
    ensures
        encode_utf8(s) == encode_utf8(s.take(k)) + encode_utf8(s.skip(k)),
    decreases k,
{
    if k == 0 {
        assert(s.take(0) =~= Seq::empty());
        assert(s.skip(0) =~= s);
        assert(encode_utf8(s) =~= encode_utf8(s.take(k)) + encode_utf8(s.skip(k)));
    } else {
        let rest = s.drop_first();
        lemma_encode_take(rest, k - 1);
        assert(s.take(k).drop_first() =~= rest.take(k - 1));
        assert(s.skip(k) =~= rest.skip(k - 1));
        assert(encode_utf8(s) =~= encode_utf8(s.take(k)) + encode_utf8(s.skip(k)));
    }
}

proof fn lemma_boundary(s: Seq<char>, k: int)
    requires
        0 <= k <= s.len(),
    ensures
        is_char_boundary(encode_utf8(s), encode_utf8(s.take(k)).len() as int),
    decreases k,
{
    encode_utf8_valid_utf8(s);
    if k == 0 {
        assert(s.take(0) =~= Seq::empty());
    } else {
        let rest = s.drop_first();
        encode_utf8_first_scalar(s);
        lemma_encode_take(s, k);
        assert(s.take(k).drop_first() =~= rest.take(k - 1));
        assert(pop_first_scalar(encode_utf8(s)) =~= encode_utf8(rest));
        lemma_boundary(rest, k - 1);
    }
}

proof fn lemma_boundary_count(s: Seq<char>, n: int) -> (k: int)
    requires
        is_char_boundary(encode_utf8(s), n),
    ensures
        0 <= k <= s.len(),
        encode_utf8(s.take(k)).len() == n,
    decreases s.len(),
{
    encode_utf8_valid_utf8(s);
    if n == 0 {
        assert(s.take(0) =~= Seq::empty());
        0
    } else if s.len() == 0 {
        0
    } else {
        let rest = s.drop_first();
        encode_utf8_first_scalar(s);
        assert(pop_first_scalar(encode_utf8(s)) =~= encode_utf8(rest));
        let k = lemma_boundary_count(rest, n - length_of_first_scalar(encode_utf8(s)));
        assert(s.take(k + 1).drop_first() =~= rest.take(k));
        assert(s.take(k + 1)[0] == s[0]);
        k + 1
    }
}

/// Where the first `k` characters take exactly `limit` bytes, or are the whole
/// text and take no more, the text splits cleanly there and they are what its
/// first `limit` bytes show.
pub proof fn byte_prefix_is_the_start(s: Seq<char>, limit: nat, k: int)
    requires
        0 <= k <= s.len(),
        encode_utf8(s.take(k)).len() == limit || (k == s.len() && encode_utf8(s).len() <= limit),
    ensures
        splits_cleanly(s, limit),
        byte_prefix(s, limit) == s.take(k),
{
    lemma_encode_take(s, k);
    lemma_boundary(s, k);
    assert(s.take(s.len() as int) =~= s);
    let head = encode_utf8(s.take(k));
    assert(head.len() == byte_limit(s, limit));
    assert(encode_utf8(s).subrange(0, head.len() as int) =~= head);
    encode_utf8_decode_utf8(s.take(k));
}

/// A text splits cleanly only where some number of its characters takes
/// exactly `limit` bytes, or all of them take no more.
pub proof fn clean_splits_are_between_characters(s: Seq<char>, limit: nat)
    requires
        splits_cleanly(s, limit),
    ensures
        encode_utf8(s).len() <= limit || exists|k: int|
            0 <= k <= s.len() && encode_utf8(#[trigger] s.take(k)).len() == limit,
{
    let k = lemma_boundary_count(s, byte_limit(s, limit) as int);
    assert(encode_utf8(s.take(k)).len() == byte_limit(s, limit));
}

/// Appends `n` times the character that `unit` consists of.
pub(crate) fn append_repeated(out: &mut String, unit: &str, n: usize)
    requires
        unit@.len() == 1,
    ensures
        final(out)@ == old(out)@ + repeated(unit@[0], n as nat),
{
    let mut i: usize = 0;
    assert(out@ =~= old(out)@ + repeated(unit@[0], 0));
    while i < n
        invariant
            i <= n,
            unit@.len() == 1,
            out@ == old(out)@ + repeated(unit@[0], i as nat),
        decreases n - i,
    {
        out.append(unit);
        i = i + 1;
        assert(out@ =~= old(out)@ + repeated(unit@[0], i as nat));
    }
}

/// Appends `s` and the spaces that fill a left-aligned column of `width`.
pub(crate) fn append_left_aligned(out: &mut String, s: &str, width: usize)
    ensures
        final(out)@ == old(out)@ + pad_right(s@, width as nat),
{
    let len: usize = s.unicode_len();
    out.append(s);
    if len < width {
        proof {
            reveal_strlit(" ");
        }
        append_repeated(out, " ", width - len);
    }
    assert(out@ =~= old(out)@ + pad_right(s@, width as nat));
}

/// Appends the spaces that fill a right-aligned column of `width`, and `s`.
pub(crate) fn append_right_aligned(out: &mut String, s: &str, width: usize)
    ensures
        final(out)@ == old(out)@ + pad_left(s@, width as nat),
{
    let len: usize = s.unicode_len();
    if len < width {
        proof {
            reveal_strlit(" ");
        }
        append_repeated(out, " ", width - len);
    }
    out.append(s);
    assert(out@ =~= old(out)@ + pad_left(s@, width as nat));
}

/// The text of one decimal digit.
fn digit_text(d: u64) -> (text: &'static str)
    requires
        d < 10,
    ensures
        text@ == seq![digit(d as nat)],
{
    proof {
        reveal_strlit("0");
        reveal_strlit("1");
        reveal_strlit("2");
        reveal_strlit("3");
        reveal_strlit("4");
        reveal_strlit("5");
        reveal_strlit("6");
        reveal_strlit("7");
        reveal_strlit("8");
        reveal_strlit("9");
    }
    match d {
        0 => "0",
        1 => "1",
        2 => "2",
        3 => "3",
        4 => "4",
        5 => "5",
        6 => "6",
        7 => "7",
        8 => "8",
        _ => "9",
    }
}

/// Appends `n` in decimal.
pub(crate) fn append_decimal(out: &mut String, n: u64)
    ensures
        final(out)@ == old(out)@ + decimal(n as nat),
    decreases n,
{
    if n >= 10 {
        append_decimal(out, n / 10);
    }
    out.append(digit_text(n % 10));
    assert(out@ =~= old(out)@ + decimal(n as nat));
}

/// `n` in decimal.
pub(crate) fn decimal_text(n: usize) -> (text: String)
    ensures
        text@ == decimal(n as nat),
{
    let mut text = String::new();
    append_decimal(&mut text, n as u64);
    text
}

/// `i` without its sign.
pub(crate) fn magnitude(i: i64) -> (size: u64)
    ensures
        size == if i < 0 {
            -i
        } else {
            i as int
        },
{
    if i == i64::MIN {
        0x8000_0000_0000_0000
    } else if i < 0 {
        (-i) as u64
    } else {
        i as u64
    }
}

/// `i` in decimal, with a minus sign where it is negative.
pub(crate) fn signed_decimal_text(i: i64) -> (text: String)
    ensures
        text@ == signed_decimal(i as int),
{
    let mut text = String::new();
    if i < 0 {
        proof {
            reveal_strlit("-");
        }
        text.append("-");
    }
    append_decimal(&mut text, magnitude(i));
    assert(text@ =~= signed_decimal(i as int));
    text
}

/// Cuts `s` to `width` characters. Where anything is cut off, an ellipsis
/// takes the last place.
pub fn truncate(s: &str, width: usize) -> (text: String)
    ensures
        text@ == truncated(s@, width as nat),
{
    let count: usize = s.unicode_len();
    if count <= width {
        s.to_owned()
    } else {
        proof {
            reveal_strlit("…");
        }
        if width <= 1 {
            let text = "…".to_owned();
            assert(text@ =~= seq!['…']);
            text
        } else {
            let mut text = s.substring_char(0, width - 1).to_owned();
            text.append("…");
            assert(text@ =~= s@.take(width - 1).push('…'));
            text
        }
    }
}

/// Where to cut `s` after `limit` bytes: there, or at its end if it is shorter.
fn limited_len(s: &str, limit: usize) -> (n: usize)
    ensures
        n == byte_limit(s@, limit as nat),
{
    let len: usize = s.as_bytes().len();
    if len < limit {
        len
    } else {
        limit
    }
}

/// Whether the first `limit` bytes of `s` end between two of its characters.
pub(crate) fn can_split(s: &str, limit: usize) -> (clean: bool)
    ensures
        clean == splits_cleanly(s@, limit as nat),
{
    s.is_char_boundary(limited_len(s, limit))
}

/// The part of `s` that lies in its first `limit` bytes.
pub(crate) fn leading_bytes(s: &str, limit: usize) -> (head: &str)
    requires
        splits_cleanly(s@, limit as nat),
    ensures
        head@ == byte_prefix(s@, limit as nat),
{
    let parts = s.split_at(limited_len(s, limit));
    proof {
        encode_utf8_decode_utf8(parts.0@);
    }
    parts.0
}

} // verus!
