//! Text as sequences of characters: trimming and joining.

use vstd::prelude::*;
use vstd::string::StrSliceExecFns;
use vstd::string::StringExecFns;

verus! {

/// The characters with the Unicode `White_Space` property.
pub open spec fn whitespace(c: char) -> bool {
    let code = c as int;
    ||| 0x9 <= code <= 0xd
    ||| code == 0x20
    ||| code == 0x85
    ||| code == 0xa0
    ||| code == 0x1680
    ||| 0x2000 <= code <= 0x200a
    ||| code == 0x2028
    ||| code == 0x2029
    ||| code == 0x202f
    ||| code == 0x205f
    ||| code == 0x3000
}

/// `s` without its leading whitespace.
pub open spec fn trimmed_start(s: Seq<char>) -> Seq<char>
    decreases s.len(),
{
    if s.len() > 0 && whitespace(s.first()) {
        trimmed_start(s.drop_first())
    } else {
        s
    }
}

/// `s` without its trailing whitespace.
pub open spec fn trimmed_end(s: Seq<char>) -> Seq<char>
    decreases s.len(),
{
    if s.len() > 0 && whitespace(s.last()) {
        trimmed_end(s.drop_last())
    } else {
        s
    }
}

/// `s` without whitespace at either end.
pub open spec fn trimmed(s: Seq<char>) -> Seq<char> {
    trimmed_end(trimmed_start(s))
}

/// The parts in order, one space between each two.
pub open spec fn spaced(parts: Seq<Seq<char>>) -> Seq<char>
    decreases parts.len(),
{
    if parts.len() == 0 {
        Seq::empty()
    } else if parts.len() == 1 {
        parts[0]
    } else {
        spaced(parts.drop_last()).push(' ') + parts.last()
    }
}

/// The text that an optional string holds.
pub open spec fn text_of(s: Option<String>) -> Option<Seq<char>> {
    match s {
        Some(s) => Some(s@),
        None => None,
    }
}

/// The texts of a list of string slices.
pub open spec fn texts(parts: Seq<&str>) -> Seq<Seq<char>> {
    parts.map_values(|part: &str| part@)
}

/// Trimming the start takes away whitespace only, and all of it that leads.
pub(crate) proof fn lemma_trimmed_start(s: Seq<char>) -> (cut: int)
    ensures
        0 <= cut <= s.len(),
        trimmed_start(s) == s.skip(cut),
        forall|i: int| 0 <= i < cut ==> whitespace(#[trigger] s[i]),
        cut < s.len() ==> !whitespace(s[cut]),
    decreases s.len(),
{
    if s.len() > 0 && whitespace(s.first()) {
        let tail = s.drop_first();
        let cut = lemma_trimmed_start(tail);
        assert(tail.skip(cut) =~= s.skip(cut + 1));
        assert forall|i: int| 0 <= i < cut + 1 implies whitespace(#[trigger] s[i]) by {
            if i > 0 {
                assert(tail[i - 1] == s[i]);
            }
        }
        cut + 1
    } else {
        assert(s.skip(0) =~= s);
        0
    }
}

/// Trimming the end takes away whitespace only, and all of it that trails.
pub(crate) proof fn lemma_trimmed_end(s: Seq<char>) -> (kept: int)
    ensures
        0 <= kept <= s.len(),
        trimmed_end(s) == s.take(kept),
        forall|i: int| kept <= i < s.len() ==> whitespace(#[trigger] s[i]),
        kept > 0 ==> !whitespace(s[kept - 1]),
    decreases s.len(),
{
    if s.len() > 0 && whitespace(s.last()) {
        let head = s.drop_last();
        let kept = lemma_trimmed_end(head);
        assert(head.take(kept) =~= s.take(kept));
        assert forall|i: int| kept <= i < s.len() implies whitespace(#[trigger] s[i]) by {
            if i < head.len() {
                assert(head[i] == s[i]);
            }
        }
        kept
    } else {
        assert(s.take(s.len() as int) =~= s);
        s.len() as int
    }
}

/// Leading whitespace makes no difference once it is trimmed.
pub(crate) proof fn lemma_trimmed_start_skips(blank: Seq<char>, rest: Seq<char>)
    requires
        forall|i: int| 0 <= i < blank.len() ==> whitespace(#[trigger] blank[i]),
    ensures
        trimmed_start(blank + rest) == trimmed_start(rest),
    decreases blank.len(),
{
    let s = blank + rest;
    if blank.len() > 0 {
        assert(whitespace(blank[0]));
        assert(s.drop_first() =~= blank.drop_first() + rest);
        lemma_trimmed_start_skips(blank.drop_first(), rest);
    } else {
        assert(s =~= rest);
    }
}

/// Trimming twice is trimming once.
pub(crate) proof fn lemma_trimmed_start_twice(s: Seq<char>)
    ensures
        trimmed_start(trimmed_start(s)) == trimmed_start(s),
{
    let cut = lemma_trimmed_start(s);
    if cut < s.len() {
        assert(s.skip(cut).first() == s[cut]);
    }
}

/// Text with a tail that is not blank is not blank.
pub(crate) proof fn lemma_trimmed_not_blank(s: Seq<char>, cut: int)
    requires
        0 <= cut <= s.len(),
        trimmed(s.skip(cut)).len() > 0,
    ensures
        trimmed(s).len() > 0,
{
    let tail = s.skip(cut);
    let c = lemma_trimmed_start(tail);
    let kept = lemma_trimmed_end(trimmed_start(tail));
    assert(tail.skip(c)[0] == s[cut + c]);
    let d = lemma_trimmed_start(s);
    let whole = lemma_trimmed_end(trimmed_start(s));
    if whole == 0 {
        assert(s.skip(d)[cut + c - d] == s[cut + c]);
    }
}

/// Trimmed text neither begins nor ends with whitespace.
pub proof fn law_trimmed_is_clean(s: Seq<char>)
    ensures
        trimmed(s).len() > 0 ==> !whitespace(trimmed(s).first()) && !whitespace(trimmed(s).last()),
{
    let start = trimmed_start(s);
    let cut = lemma_trimmed_start(s);
    let kept = lemma_trimmed_end(start);
    if kept > 0 {
        assert(trimmed(s).first() == s[cut]);
        assert(trimmed(s).last() == start[kept - 1]);
    }
}

/// Whether `c` is whitespace in the sense of Unicode.
pub fn is_whitespace(c: char) -> (r: bool)
    ensures
        r == whitespace(c),
{
    let code: u32 = c as u32;
    (0x9 <= code && code <= 0xd) || code == 0x20 || code == 0x85 || code == 0xa0 || code == 0x1680
        || (0x2000 <= code && code <= 0x200a) || code == 0x2028 || code == 0x2029 || code == 0x202f
        || code == 0x205f || code == 0x3000
}

/// The characters of `s`.
pub fn chars_of(s: &str) -> (chars: Vec<char>)
    ensures
        chars@ == s@,
{
    let mut chars: Vec<char> = Vec::new();
    for c in it: s.chars()
        invariant
            it.seq() == s@,
            chars@ == s@.take(it.index() as int),
    {
        chars.push(c);
    }
    chars
}

/// `s` without its leading whitespace.
pub fn trim_start<'a>(s: &'a str) -> (r: &'a str)
    ensures
        r@ == trimmed_start(s@),
{
    let chars = chars_of(s);
    let mut from: usize = 0;
    assert(s@.skip(0) =~= s@);
    while from < chars.len() && is_whitespace(chars[from])
        invariant
            chars@ == s@,
            from <= chars.len(),
            trimmed_start(s@.skip(from as int)) == trimmed_start(s@),
        decreases chars.len() - from,
    {
        assert(s@.skip(from as int).drop_first() =~= s@.skip(from + 1));
        from += 1;
    }
    s.substring_char(from, chars.len())
}

/// `s` without whitespace at either end.
pub fn trim<'a>(s: &'a str) -> (r: &'a str)
    ensures
        r@ == trimmed(s@),
{
    let start = trim_start(s);
    let chars = chars_of(start);
    let mut to: usize = chars.len();
    assert(start@.take(to as int) =~= start@);
    while to > 0 && is_whitespace(chars[to - 1])
        invariant
            chars@ == start@,
            to <= chars.len(),
            trimmed_end(start@.take(to as int)) == trimmed_end(start@),
        decreases to,
    {
        assert(start@.take(to as int).drop_last() =~= start@.take(to - 1));
        to -= 1;
    }
    start.substring_char(0, to)
}

/// The parts in order, one space between each two.
pub fn join_spaced(parts: &[&str]) -> (r: String)
    ensures
        r@ == spaced(texts(parts@)),
{
    let mut joined = String::new();
    let mut i: usize = 0;
    while i < parts.len()
        invariant
            i <= parts.len(),
            joined@ == spaced(texts(parts@).take(i as int)),
        decreases parts.len() - i,
    {
        let ghost before = texts(parts@).take(i as int);
        let ghost after = texts(parts@).take(i + 1);
        assert(after.drop_last() =~= before);
        if i > 0 {
            proof {
                reveal_strlit(" ");
                assert(joined@ + " "@ =~= joined@.push(' '));
            }
            joined.append(" ");
        }
        joined.append(parts[i]);
        i += 1;
    }
    assert(texts(parts@).take(i as int) =~= texts(parts@));
    joined
}

} // verus!
