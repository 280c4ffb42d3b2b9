//! Rendering of a target string in a given style.
use vstd::prelude::*;

use crate::classify::{classify, identify};
use crate::letters::{char_is_upper, char_to_lower, char_to_upper, is_upper, lower_of, upper_of};
use crate::style::{is_sep_char, sep_text, Case, Style};

verus! {

/// Whether a letter is written in uppercase under case convention `case`,
/// given whether it starts a word.
pub open spec fn upper_here(case: Case, new_word: bool) -> bool {
    match case {
        Case::Lower => false,
        Case::AllCaps => true,
        _ => new_word,
    }
}

/// Whether position `i` of `b` starts a word. The first word of a camelCase
/// identifier is not taken to start one, so it stays lowercase.
pub open spec fn starts_word(b: Seq<char>, i: int, case: Case) -> bool {
    if i == 0 {
        case != Case::Camel
    } else {
        is_sep_char(b[i - 1])
    }
}

/// What character `i` of `b` becomes: a separator is replaced by the style's
/// word separator, and any other character is case-converted.
pub open spec fn piece(b: Seq<char>, i: int, style: Style) -> Seq<char> {
    if is_sep_char(b[i]) {
        sep_text(style.sep)
    } else if upper_here(style.case, starts_word(b, i, style.case)) {
        upper_of(b[i])
    } else {
        lower_of(b[i])
    }
}

/// The rendering of the first `n` characters of `b`.
pub open spec fn render_prefix(b: Seq<char>, style: Style, n: nat) -> Seq<char>
    decreases n,
{
    if n == 0 {
        seq![]
    } else {
        render_prefix(b, style, (n - 1) as nat) + piece(b, n - 1, style)
    }
}

/// The rendering of `t` in `style`. A leading space of `t` marks where the
/// style's leading separator goes.
pub open spec fn render(t: Seq<char>, style: Style) -> Seq<char> {
    if t.len() > 0 && t[0] == ' ' {
        sep_text(style.pre) + render_prefix(t.drop_first(), style, (t.len() - 1) as nat)
    } else {
        render_prefix(t, style, t.len())
    }
}

/// Whether position `i` of target is uppercased when it copies the casing of
/// `s` position by position, the last character of `s` standing for all
/// positions past its end.
pub open spec fn positional_upper(s: Seq<char>, i: int) -> bool {
    if i < s.len() {
        is_upper(s[i])
    } else {
        s.len() > 0 && is_upper(s.last())
    }
}

/// The first `n` characters of `t` cased position by position after `s`.
pub open spec fn positional_prefix(t: Seq<char>, s: Seq<char>, n: nat) -> Seq<char>
    decreases n,
{
    if n == 0 {
        seq![]
    } else {
        positional_prefix(t, s, (n - 1) as nat) + if positional_upper(s, n - 1) {
            upper_of(t[n - 1])
        } else {
            lower_of(t[n - 1])
        }
    }
}

/// Appends `c`, uppercased or lowercased, to `res`.
fn push_cased(res: &mut String, c: char, upper: bool)
    ensures
        final(res)@ == old(res)@ + if upper {
            upper_of(c)
        } else {
            lower_of(c)
        },
{
    if upper {
        let u = char_to_upper(c);
        res.append(u.as_str());
    } else {
        let l = char_to_lower(c);
        res.append(l.as_str());
    }
}

/// Renders `ident` in `style`.
///
/// A leading space of `ident` is replaced by the leading separator of
/// `style`. Every `_`, `-` or space after it is replaced by the word
/// separator, and every other character is upper- or lowercased as the case
/// convention asks.
pub fn construct(ident: &str, style: Style) -> (r: String)
    ensures
        r@ == render(ident@, style),
{
    let mut res = String::new();
    let n = ident.unicode_len();
    if n == 0 {
        assert(res@ =~= render(ident@, style));
        return res;
    }
    let body: &str;
    if ident.get_char(0) == ' ' {
        style.pre.add_to(&mut res);
        body = ident.substring_char(1, n);
    } else {
        body = ident;
    }
    let ghost b = body@;
    let ghost head = res@;
    let m = body.unicode_len();

    let mut new_word = style.case != Case::Camel;
    let mut i: usize = 0;
    while i < m
        invariant
            i <= m,
            m == b.len(),
            body@ == b,
            new_word == starts_word(b, i as int, style.case),
            res@ == head + render_prefix(b, style, i as nat),
        decreases m - i,
    {
        let c = body.get_char(i);
        if c == '_' || c == '-' || c == ' ' {
            style.sep.add_to(&mut res);
            new_word = true;
        } else {
            let uppercase = match style.case {
                Case::Lower => false,
                Case::AllCaps => true,
                _ => new_word,
            };
            push_cased(&mut res, c, uppercase);
            new_word = false;
        }
        assert(res@ =~= head + render_prefix(b, style, (i + 1) as nat));
        i = i + 1;
    }
    assert(res@ =~= render(ident@, style));
    res
}

/// Renders `target` in the style inferred from reference `source`, preferring
/// `priorities` in order.
pub fn recase(target: &str, source: &str, priorities: &[Style]) -> (r: String)
    ensures
        r@ == render(target@, classify(source@, priorities@)),
{
    let style = identify(source, priorities);
    construct(target, style)
}

/// Changes the casing of `target` to match that of `source` position by
/// position. Where `target` is longer than `source`, the last character of
/// `source` sets the casing of the remainder; an empty `source` lowercases
/// everything.
pub fn recase_naive(target: &str, source: &str) -> (r: String)
    ensures
        r@ == positional_prefix(target@, source@, target@.len()),
{
    let mut res = String::new();
    let n = target.unicode_len();
    let k = source.unicode_len();
    let last_upper = k > 0 && char_is_upper(source.get_char(k - 1));
    let mut i: usize = 0;
    while i < n
        invariant
            i <= n,
            n == target@.len(),
            k == source@.len(),
            last_upper == (k > 0 && is_upper(source@.last())),
            res@ == positional_prefix(target@, source@, i as nat),
        decreases n - i,
    {
        let upper = if i < k {
            char_is_upper(source.get_char(i))
        } else {
            last_upper
        };
        push_cased(&mut res, target.get_char(i), upper);
        i = i + 1;
    }
    res
}

} // verus!
