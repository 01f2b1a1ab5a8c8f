//! The spinner glyph that an agent animates at the head of its own title.

use crate::text::trim_start;
use vstd::prelude::*;
use vstd::string::StrSliceExecFns;

verus! {

/// The glyphs that agents use as an animated leading "working" indicator: the Braille Patterns
/// block and a few stars and sparkles.
pub open spec fn spinner_glyph(c: char) -> bool {
    ||| 0x2800 <= c as int <= 0x28ff
    ||| seq!['✶', '✳', '✻', '✽', '✢', '✥', '✦', '✧', '❋', '❂'].contains(c)
}

/// `title` without leading whitespace, without one spinner glyph if it then begins with one, and
/// without the whitespace behind that glyph.
pub open spec fn without_spinner(title: Seq<char>) -> Seq<char> {
    let start = crate::text::trimmed_start(title);
    if start.len() > 0 && spinner_glyph(start.first()) {
        crate::text::trimmed_start(start.drop_first())
    } else {
        start
    }
}

/// Glyphs coding agents commonly use as an animated leading "working" indicator in their own tab
/// title: the full Braille Patterns block plus a few star/sparkle pulses. Kept conservative so
/// that the first character of ordinary title text is never taken for one.
pub fn is_spinner_glyph(c: char) -> (r: bool)
    ensures
        r == spinner_glyph(c),
{
    let ghost stars = seq!['✶', '✳', '✻', '✽', '✢', '✥', '✦', '✧', '❋', '❂'];
    proof {
        assert(stars[0] == '✶' && stars[1] == '✳' && stars[2] == '✻' && stars[3] == '✽');
        assert(stars[4] == '✢' && stars[5] == '✥' && stars[6] == '✦' && stars[7] == '✧');
        assert(stars[8] == '❋' && stars[9] == '❂');
    }
    let code: u32 = c as u32;
    (0x2800 <= code && code <= 0x28ff) || c == '✶' || c == '✳' || c == '✻' || c == '✽' || c == '✢'
        || c == '✥' || c == '✦' || c == '✧' || c == '❋' || c == '❂'
}

/// Strip a single leading spinner-style glyph, and the whitespace around it, from an agent's own
/// title.
pub fn strip_leading_spinner<'a>(title: &'a str) -> (r: &'a str)
    ensures
        r@ == without_spinner(title@),
{
    let start = trim_start(title);
    let len: usize = start.unicode_len();
    if len > 0 && is_spinner_glyph(start.get_char(0)) {
        let rest = start.substring_char(1, len);
        assert(rest@ =~= start@.drop_first());
        trim_start(rest)
    } else {
        start
    }
}

} // verus!
