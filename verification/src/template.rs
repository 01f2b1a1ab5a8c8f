//! Templates for the window title, with the tokens `{workspace}` and `{tab}`.

use crate::text::chars_of;
use vstd::prelude::*;
use vstd::string::StrSliceExecFns;
use vstd::string::StringExecFns;

verus! {

/// The index of the first `c` in `s`; the length of `s` where there is none.
pub open spec fn first_index(s: Seq<char>, c: char) -> nat
    decreases s.len(),
{
    if s.len() == 0 || s.first() == c {
        0
    } else {
        1nat + first_index(s.drop_first(), c)
    }
}

/// What a token, braces included, stands for. An unknown token stands for itself.
pub open spec fn token_value(token: Seq<char>, workspace: Seq<char>, tab: Seq<char>) -> Seq<char> {
    if token == "{workspace}"@ {
        workspace
    } else if token == "{tab}"@ {
        tab
    } else {
        token
    }
}

/// `format` with each token replaced by its value. A token reaches from a `{` to the next `}`;
/// everything else, and a `{` that is never closed, stands for itself.
pub open spec fn substituted(format: Seq<char>, workspace: Seq<char>, tab: Seq<char>) -> Seq<char>
    decreases format.len(),
{
    if format.len() == 0 {
        Seq::empty()
    } else if format.first() != '{' {
        seq![format.first()] + substituted(format.drop_first(), workspace, tab)
    } else {
        let end = first_index(format, '}') as int;
        if end < format.len() {
            token_value(format.take(end + 1), workspace, tab) + substituted(
                format.skip(end + 1),
                workspace,
                tab,
            )
        } else {
            format
        }
    }
}

proof fn lemma_first_index(s: Seq<char>, c: char)
    ensures
        0 <= first_index(s, c) <= s.len(),
        first_index(s, c) < s.len() ==> s[first_index(s, c) as int] == c,
        forall|i: int| 0 <= i < first_index(s, c) ==> s[i] != c,
    decreases s.len(),
{
    if s.len() > 0 && s.first() != c {
        lemma_first_index(s.drop_first(), c);
        assert forall|i: int| 0 <= i < first_index(s, c) implies s[i] != c by {
            if i > 0 {
                assert(s.drop_first()[i - 1] == s[i]);
            }
        }
    }
}

/// Text without a `{` at the head of a template stands for itself.
pub proof fn law_literal_text_is_kept(
    literal: Seq<char>,
    rest: Seq<char>,
    workspace: Seq<char>,
    tab: Seq<char>,
)
    requires
        !literal.contains('{'),
    ensures
        substituted(literal + rest, workspace, tab) == literal + substituted(rest, workspace, tab),
    decreases literal.len(),
{
    let format = literal + rest;
    if literal.len() == 0 {
        assert(format =~= rest);
    } else {
        assert(literal.contains(literal.first()));
        let tail = literal.drop_first();
        assert(!tail.contains('{')) by {
            if tail.contains('{') {
                let i = choose|i: int| 0 <= i < tail.len() && tail[i] == '{';
                assert(literal[i + 1] == '{');
            }
        }
        assert(format.drop_first() =~= tail + rest);
        law_literal_text_is_kept(tail, rest, workspace, tab);
        assert(seq![literal.first()] + tail =~= literal);
    }
}

/// A token, the text from a `{` up to the next `}`, is replaced by its value, and substitution goes
/// on behind the token: the value itself is not searched for tokens.
pub proof fn law_token_is_replaced_once(
    name: Seq<char>,
    rest: Seq<char>,
    workspace: Seq<char>,
    tab: Seq<char>,
)
    requires
        !name.contains('}'),
    ensures
        ({
            let token = seq!['{'] + name + seq!['}'];
            substituted(token + rest, workspace, tab) == token_value(token, workspace, tab)
                + substituted(rest, workspace, tab)
        }),
{
    let token = seq!['{'] + name + seq!['}'];
    let format = token + rest;
    let end = first_index(format, '}') as int;
    lemma_first_index(format, '}');
    assert(format[name.len() as int + 1] == '}');
    assert(end == name.len() + 1) by {
        if end < name.len() + 1 {
            assert(format[end] == name[end - 1]);
        }
    }
    assert(format.take(end + 1) =~= token);
    assert(format.skip(end + 1) =~= rest);
}

/// Whatever the workspace is called, be it `{tab}`, its token stands for that name and no more.
pub proof fn law_workspace_token(rest: Seq<char>, workspace: Seq<char>, tab: Seq<char>)
    ensures
        substituted("{workspace}"@ + rest, workspace, tab) == workspace + substituted(
            rest,
            workspace,
            tab,
        ),
{
    reveal_strlit("{workspace}");
    let name = "{workspace}"@.subrange(1, 10);
    assert(seq!['{'] + name + seq!['}'] =~= "{workspace}"@);
    law_token_is_replaced_once(name, rest, workspace, tab);
}

/// Whatever the tab is called, be it `{workspace}`, its token stands for that name and no more.
pub proof fn law_tab_token(rest: Seq<char>, workspace: Seq<char>, tab: Seq<char>)
    ensures
        substituted("{tab}"@ + rest, workspace, tab) == tab + substituted(rest, workspace, tab),
{
    reveal_strlit("{workspace}");
    reveal_strlit("{tab}");
    let name = "{tab}"@.subrange(1, 4);
    assert(seq!['{'] + name + seq!['}'] =~= "{tab}"@);
    assert("{tab}"@.len() != "{workspace}"@.len());
    law_token_is_replaced_once(name, rest, workspace, tab);
}

/// An unknown token is kept verbatim.
pub proof fn law_unknown_token_is_kept(
    name: Seq<char>,
    rest: Seq<char>,
    workspace: Seq<char>,
    tab: Seq<char>,
)
    requires
        !name.contains('}'),
        seq!['{'] + name + seq!['}'] != "{workspace}"@,
        seq!['{'] + name + seq!['}'] != "{tab}"@,
    ensures
        substituted(seq!['{'] + name + seq!['}'] + rest, workspace, tab) == seq!['{'] + name + seq![
            '}',
        ] + substituted(rest, workspace, tab),
{
    law_token_is_replaced_once(name, rest, workspace, tab);
}

/// A `{` that is never closed, and what follows it, are kept verbatim.
pub proof fn law_unclosed_brace_is_kept(
    rest: Seq<char>,
    workspace: Seq<char>,
    tab: Seq<char>,
)
    requires
        !rest.contains('}'),
    ensures
        substituted(seq!['{'] + rest, workspace, tab) == seq!['{'] + rest,
{
    let format = seq!['{'] + rest;
    lemma_first_index(format, '}');
    let end = first_index(format, '}') as int;
    if end < format.len() {
        assert(format[end] == rest[end - 1]);
    }
}

/// Substitution changes nothing where each token stands for itself.
pub proof fn law_tokens_for_themselves(format: Seq<char>)
    ensures
        substituted(format, "{workspace}"@, "{tab}"@) == format,
    decreases format.len(),
{
    if format.len() > 0 {
        if format.first() != '{' {
            law_tokens_for_themselves(format.drop_first());
            assert(seq![format.first()] + format.drop_first() =~= format);
        } else {
            let end = first_index(format, '}') as int;
            if end < format.len() {
                law_tokens_for_themselves(format.skip(end + 1));
                assert(format.take(end + 1) + format.skip(end + 1) =~= format);
            }
        }
    }
}

/// The first `c` in `chars` at or behind `from`.
fn find_from(chars: &Vec<char>, from: usize, c: char) -> (r: Option<usize>)
    requires
        from <= chars.len(),
    ensures
        match r {
            Some(i) => i < chars.len() && i == from + first_index(chars@.skip(from as int), c),
            None => chars.len() == from + first_index(chars@.skip(from as int), c),
        },
{
    let mut i: usize = from;
    while i < chars.len() && chars[i] != c
        invariant
            from <= i <= chars.len(),
            first_index(chars@.skip(from as int), c) == i - from + first_index(
                chars@.skip(i as int),
                c,
            ),
        decreases chars.len() - i,
    {
        assert(chars@.skip(i as int).drop_first() =~= chars@.skip(i + 1));
        i += 1;
    }
    if i < chars.len() {
        Some(i)
    } else {
        None
    }
}

/// What a token, braces included, stands for.
fn token_text<'a>(token: &'a str, workspace: &'a str, tab: &'a str) -> (r: &'a str)
    ensures
        r@ == token_value(token@, workspace@, tab@),
{
    let token_string = token.to_owned();
    if token_string == "{workspace}".to_owned() {
        workspace
    } else if token_string == "{tab}".to_owned() {
        tab
    } else {
        token
    }
}

/// Single-pass `{workspace}`/`{tab}` substitution. A token-like substring inside a substituted
/// value is left intact (a workspace literally named `{tab}` is not rewritten), and unknown tokens
/// are kept verbatim.
pub fn substitute_window_title_tokens(format: &str, workspace: &str, tab: &str) -> (r: String)
    ensures
        r@ == substituted(format@, workspace@, tab@),
{
    let chars = chars_of(format);
    let len: usize = chars.len();
    let mut out = String::new();
    let mut pos: usize = 0;
    assert(format@.skip(0) =~= format@);
    assert(Seq::<char>::empty() + substituted(format@, workspace@, tab@) =~= substituted(
        format@,
        workspace@,
        tab@,
    ));
    while pos < len
        invariant
            chars@ == format@,
            len == chars.len(),
            pos <= len,
            out@ + substituted(format@.skip(pos as int), workspace@, tab@) == substituted(
                format@,
                workspace@,
                tab@,
            ),
        decreases len - pos,
    {
        let ghost done = out@;
        let ghost rest = format@.skip(pos as int);
        let start: usize = match find_from(&chars, pos, '{') {
            Some(i) => i,
            None => len,
        };
        let ghost after = format@.skip(start as int);
        let literal = format.substring_char(pos, start);
        proof {
            lemma_first_index(rest, '{');
            assert forall|i: int| 0 <= i < literal@.len() implies literal@[i] != '{' by {
                assert(literal@[i] == rest[i]);
            }
            assert(rest =~= literal@ + after);
            law_literal_text_is_kept(literal@, after, workspace@, tab@);
        }
        out.append(literal);
        match find_from(&chars, start, '}') {
            Some(end) => {
                let token = format.substring_char(start, end + 1);
                let value = token_text(token, workspace, tab);
                proof {
                    assert(after.first() == '{') by {
                        assert(after.first() == rest[start - pos]);
                    }
                    assert(token@ =~= after.take(end - start + 1));
                    assert(format@.skip(end + 1) =~= after.skip(end - start + 1));
                    let left = substituted(format@.skip(end + 1), workspace@, tab@);
                    assert(done + literal@ + value@ + left =~= done + (literal@ + (value@ + left)));
                }
                out.append(value);
                pos = end + 1;
            },
            None => {
                let unclosed = format.substring_char(start, len);
                proof {
                    assert(unclosed@ =~= after);
                    assert(substituted(after, workspace@, tab@) =~= after) by {
                        if after.len() > 0 {
                            assert(after.first() == rest[start - pos]);
                        }
                    }
                    assert(done + literal@ + after + Seq::empty() =~= done + (literal@ + after));
                }
                out.append(unclosed);
                pos = len;
            },
        }
    }
    out
}

} // verus!
