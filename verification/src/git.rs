//! The commit that a build is made from.

use vstd::prelude::*;
use vstd::string::*;
use vstd::utf8::*;

verus! {

/// What `git rev-parse HEAD` left behind.
#[derive(Debug)]
pub struct GitReply {
    /// Whether git exited with success.
    pub success: bool,
    /// What git wrote to its standard output.
    pub stdout: Vec<u8>,
}

/// A character of white space, as Unicode has it.
pub open spec fn white(c: char) -> bool {
    ||| '\u{9}' <= c <= '\u{d}'
    ||| c == '\u{20}'
    ||| c == '\u{85}'
    ||| c == '\u{a0}'
    ||| c == '\u{1680}'
    ||| '\u{2000}' <= c <= '\u{200a}'
    ||| c == '\u{2028}'
    ||| c == '\u{2029}'
    ||| c == '\u{202f}'
    ||| c == '\u{205f}'
    ||| c == '\u{3000}'
}

/// `s` without the white space at its two ends.
pub open spec fn trimmed(s: Seq<char>) -> Seq<char>
    decreases s.len(),
{
    if s.len() == 0 {
        s
    } else if white(s.first()) {
        trimmed(s.drop_first())
    } else if white(s.last()) {
        trimmed(s.drop_last())
    } else {
        s
    }
}

/// White space is what Unicode lists as such: 25 characters and no others.
pub proof fn white_space_is_listed(c: char)
    ensures
        white(c) <==> seq![
            0x9u32,
            0xa,
            0xb,
            0xc,
            0xd,
            0x20,
            0x85,
            0xa0,
            0x1680,
            0x2000,
            0x2001,
            0x2002,
            0x2003,
            0x2004,
            0x2005,
            0x2006,
            0x2007,
            0x2008,
            0x2009,
            0x200a,
            0x2028,
            0x2029,
            0x202f,
            0x205f,
            0x3000,
        ].contains(c as u32),
{
    let listed = seq![
        0x9u32,
        0xa,
        0xb,
        0xc,
        0xd,
        0x20,
        0x85,
        0xa0,
        0x1680,
        0x2000,
        0x2001,
        0x2002,
        0x2003,
        0x2004,
        0x2005,
        0x2006,
        0x2007,
        0x2008,
        0x2009,
        0x200a,
        0x2028,
        0x2029,
        0x202f,
        0x205f,
        0x3000,
    ];
    let code = c as u32;
    if white(c) {
        let at: int = if code <= 0xd {
            code - 0x9
        } else if code == 0x20 {
            5
        } else if code == 0x85 {
            6
        } else if code == 0xa0 {
            7
        } else if code == 0x1680 {
            8
        } else if code <= 0x200a {
            9 + (code - 0x2000)
        } else if code == 0x2028 {
            20
        } else if code == 0x2029 {
            21
        } else if code == 0x202f {
            22
        } else if code == 0x205f {
            23
        } else {
            24
        };
        assert(listed[at] == code);
    }
}

/// Nothing is left of a text that is all white space.
pub proof fn blank_text_trims_to_nothing(s: Seq<char>)
    requires
        forall|i: int| 0 <= i < s.len() ==> white(#[trigger] s[i]),
    ensures
        trimmed(s).len() == 0,
    decreases s.len(),
{
    if s.len() > 0 {
        blank_text_trims_to_nothing(s.drop_first());
    }
}

/// A trimmed text neither begins nor ends with white space.
pub proof fn trimmed_ends(s: Seq<char>)
    ensures
        trimmed(s).len() > 0 ==> !white(trimmed(s).first()) && !white(trimmed(s).last()),
        trimmed(trimmed(s)) == trimmed(s),
    decreases s.len(),
{
    if s.len() > 0 {
        if white(s.first()) {
            trimmed_ends(s.drop_first());
        } else if white(s.last()) {
            trimmed_ends(s.drop_last());
        }
    }
}

/// A text between two runs of white space is what trimming leaves of it.
pub proof fn trimming_undoes_padding(before: Seq<char>, s: Seq<char>, after: Seq<char>)
    requires
        s.len() > 0,
        !white(s.first()),
        !white(s.last()),
        forall|i: int| 0 <= i < before.len() ==> white(#[trigger] before[i]),
        forall|i: int| 0 <= i < after.len() ==> white(#[trigger] after[i]),
    ensures
        trimmed(before + s + after) == s,
    decreases before.len() + after.len(),
{
    let whole = before + s + after;
    if before.len() > 0 {
        assert(whole.first() == before[0]);
        assert(whole.drop_first() =~= before.drop_first() + s + after);
        trimming_undoes_padding(before.drop_first(), s, after);
    } else if after.len() > 0 {
        assert(whole.first() == s.first());
        assert(whole.last() == after[after.len() - 1]);
        assert(whole.drop_last() =~= before + s + after.drop_last());
        trimming_undoes_padding(before, s, after.drop_last());
    } else {
        assert(whole =~= s);
    }
}

/// Whether `c` is white space.
pub fn is_white_space(c: char) -> (found: bool)
    ensures
        found == white(c),
{
    ('\u{9}' <= c && c <= '\u{d}') || c == '\u{20}' || c == '\u{85}' || c == '\u{a0}' || c
        == '\u{1680}' || ('\u{2000}' <= c && c <= '\u{200a}') || c == '\u{2028}' || c == '\u{2029}'
        || c == '\u{202f}' || c == '\u{205f}' || c == '\u{3000}'
}

/// `s` without the white space at its two ends.
pub fn trim(s: &str) -> (kept: &str)
    ensures
        kept@ == trimmed(s@),
{
    let len: usize = s.unicode_len();
    let mut from: usize = 0;
    assert(s@.subrange(0, len as int) =~= s@);
    while from < len && is_white_space(s.get_char(from))
        invariant
            from <= len == s@.len(),
            trimmed(s@.subrange(from as int, len as int)) == trimmed(s@),
        decreases len - from,
    {
        assert(s@.subrange(from as int, len as int).drop_first() =~= s@.subrange(
            from + 1,
            len as int,
        ));
        from = from + 1;
    }
    let mut to: usize = len;
    while to > from && is_white_space(s.get_char(to - 1))
        invariant
            from <= to <= len == s@.len(),
            from < len ==> !white(s@[from as int]),
            trimmed(s@.subrange(from as int, to as int)) == trimmed(s@),
        decreases to,
    {
        assert(s@.subrange(from as int, to as int).drop_last() =~= s@.subrange(
            from as int,
            to - 1,
        ));
        to = to - 1;
    }
    s.substring_char(from, to)
}

/// The text that `String::from_utf8_lossy` makes of the bytes.
pub uninterp spec fn lossy_text(bytes: Seq<u8>) -> Seq<char>;

/// Calls `String::from_utf8_lossy`. The contract names the text that it makes
/// of the bytes, and claims that bytes which are valid UTF-8 stand for the
/// text that they encode. Which replacement characters stand for invalid
/// bytes is left unsaid.
#[verifier::external_body]
fn text_of_bytes(bytes: &Vec<u8>) -> (text: String)
    ensures
        text@ == lossy_text(bytes@),
        valid_utf8(bytes@) ==> text@ == decode_utf8(bytes@),
{
    String::from_utf8_lossy(bytes).into_owned()
}

/// The commit that git names, or none where git could not be run or failed.
pub open spec fn commit_of(reply: Option<GitReply>) -> Option<Seq<char>> {
    match reply {
        Some(reply) => if reply.success {
            Some(trimmed(lossy_text(reply.stdout@)))
        } else {
            None
        },
        None => None,
    }
}

/// The text of an optional string.
pub open spec fn optional_text(text: Option<String>) -> Option<Seq<char>> {
    match text {
        Some(text) => Some(text@),
        None => None,
    }
}

/// Git names a commit exactly where it ran and succeeded, and the commit is
/// what it wrote, without the white space around it.
pub proof fn commits_are_what_git_wrote(
    reply: Option<GitReply>,
    before: Seq<char>,
    hash: Seq<char>,
    after: Seq<char>,
)
    requires
        hash.len() > 0,
        !white(hash.first()),
        !white(hash.last()),
        forall|i: int| 0 <= i < before.len() ==> white(#[trigger] before[i]),
        forall|i: int| 0 <= i < after.len() ==> white(#[trigger] after[i]),
    ensures
        commit_of(reply) is Some <==> reply is Some && reply->0.success,
        reply matches Some(told) ==> told.success && lossy_text(told.stdout@) == before + hash
            + after ==> commit_of(reply) == Some(hash),
{
    trimming_undoes_padding(before, hash, after);
}

/// An optional string has a text exactly where it is one, and it is its own.
pub proof fn strings_are_their_own_text(text: Option<String>)
    ensures
        optional_text(text) is Some <==> text is Some,
        text is Some ==> optional_text(text)->0 == text->0@,
{
}

/// The commit that git names, or none where git could not be run or failed.
/// What git wrote in valid UTF-8 is taken as the text that it encodes.
pub fn read_git_head(reply: &Option<GitReply>) -> (commit: Option<String>)
    ensures
        optional_text(commit) == commit_of(*reply),
        commit is Some <==> *reply is Some && (*reply)->0.success,
        commit is Some ==> commit->0@ == trimmed(lossy_text((*reply)->0.stdout@)),
        match *reply {
            Some(told) => told.success && valid_utf8(told.stdout@) ==> optional_text(commit)
                == Some(trimmed(decode_utf8(told.stdout@))),
            None => true,
        },
{
    match reply {
        Some(told) => {
            if told.success {
                let text = text_of_bytes(&told.stdout);
                Some(trim(text.as_str()).to_owned())
            } else {
                None
            }
        },
        None => None,
    }
}

} // verus!
