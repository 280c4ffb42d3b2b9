//! Inference of the style of a reference string.
use vstd::prelude::*;

use crate::letters::{char_is_lower, char_is_upper, is_lower, is_upper};
use crate::style::{case_at, case_index, is_sep_char, sep_at, sep_index, sep_of_char, Case, Sep, Style};

verus! {

/// The reference string after its leading separator, if it has one.
pub open spec fn body_of(r: Seq<char>) -> Seq<char> {
    if r.len() > 0 && is_sep_char(r[0]) {
        r.drop_first()
    } else {
        r
    }
}

/// The separator kind of the last separator character in `b`, if any.
pub open spec fn last_sep(b: Seq<char>) -> Option<Sep>
    decreases b.len(),
{
    if b.len() == 0 {
        None
    } else if is_sep_char(b.last()) {
        Some(sep_of_char(b.last()))
    } else {
        last_sep(b.drop_last())
    }
}

/// Whether `b` holds a lowercase letter.
pub open spec fn has_lower(b: Seq<char>) -> bool {
    exists|i: int| 0 <= i < b.len() && is_lower(b[i])
}

/// Whether `b` holds an uppercase letter that is not also lowercase.
pub open spec fn has_upper(b: Seq<char>) -> bool {
    exists|i: int| 0 <= i < b.len() && !is_lower(b[i]) && is_upper(b[i])
}

/// Whether `b` starts with an uppercase letter.
pub open spec fn starts_upper(b: Seq<char>) -> bool {
    b.len() > 0 && is_upper(b[0])
}

/// Whether reference `r` is consistent with leading separator `p`: a leading
/// separator character fixes it, and without one any kind stays possible.
pub open spec fn pre_allowed(r: Seq<char>, p: Sep) -> bool {
    r.len() > 0 && is_sep_char(r[0]) ==> p == sep_of_char(r[0])
}

/// Whether reference `r` is consistent with case convention `c`.
pub open spec fn case_allowed(r: Seq<char>, c: Case) -> bool {
    let b = body_of(r);
    match c {
        Case::Lower => !has_upper(b),
        Case::Camel => !starts_upper(b),
        Case::Caps => starts_upper(b),
        Case::AllCaps => !has_lower(b),
    }
}

/// Whether reference `r` is consistent with word separator `s`: the last
/// separator character fixes it, and without one any kind stays possible.
pub open spec fn sep_allowed(r: Seq<char>, s: Sep) -> bool {
    match last_sep(body_of(r)) {
        Some(x) => s == x,
        None => true,
    }
}

/// Whether reference `r` is consistent with style `s` in all three parts.
pub open spec fn admits(r: Seq<char>, s: Style) -> bool {
    pre_allowed(r, s.pre) && case_allowed(r, s.case) && sep_allowed(r, s.sep)
}

/// The style at position `k` of the enumeration of all 64 styles: leading
/// separator outermost, then case convention, then word separator, each in
/// declaration order.
pub open spec fn style_at(k: int) -> Style {
    Style { pre: sep_at(k / 16), case: case_at((k / 4) % 4), sep: sep_at(k % 4) }
}

/// Every style, in enumeration order.
pub open spec fn all_styles() -> Seq<Style> {
    Seq::new(64, |k: int| style_at(k))
}

/// The first of `cands` that reference `r` admits.
pub open spec fn first_admitted(r: Seq<char>, cands: Seq<Style>) -> Option<Style>
    decreases cands.len(),
{
    if cands.len() == 0 {
        None
    } else if admits(r, cands[0]) {
        Some(cands[0])
    } else {
        first_admitted(r, cands.drop_first())
    }
}

/// The style chosen when nothing else applies.
pub open spec fn fallback() -> Style {
    Style { pre: Sep::Underscore, case: Case::Lower, sep: Sep::Underscore }
}

/// The style of reference `r` under priorities `prior`: the first of the
/// priorities, then of all styles in enumeration order, that `r` admits.
/// An empty reference gets the fallback.
pub open spec fn classify(r: Seq<char>, prior: Seq<Style>) -> Style {
    if r.len() == 0 {
        fallback()
    } else {
        match first_admitted(r, prior + all_styles()) {
            Some(s) => s,
            None => fallback(),
        }
    }
}

/// Skipping candidates that are not admitted does not change the choice.
pub proof fn lemma_skip_unadmitted(r: Seq<char>, cands: Seq<Style>, i: int)
    requires
        0 <= i <= cands.len(),
        forall|j: int| 0 <= j < i ==> !admits(r, #[trigger] cands[j]),
    ensures
        first_admitted(r, cands) == first_admitted(r, cands.subrange(i, cands.len() as int)),
    decreases i,
{
    if i == 0 {
        assert(cands.subrange(0, cands.len() as int) =~= cands);
    } else {
        let rest = cands.drop_first();
        assert forall|j: int| 0 <= j < i - 1 implies !admits(r, #[trigger] rest[j]) by {
            assert(rest[j] == cands[j + 1]);
        }
        lemma_skip_unadmitted(r, rest, i - 1);
        assert(rest.subrange(i - 1, rest.len() as int) =~= cands.subrange(i, cands.len() as int));
    }
}

/// The first admitted candidate is the one chosen.
pub proof fn lemma_first_admitted_at(r: Seq<char>, cands: Seq<Style>, i: int)
    requires
        0 <= i < cands.len(),
        admits(r, cands[i]),
        forall|j: int| 0 <= j < i ==> !admits(r, #[trigger] cands[j]),
    ensures
        first_admitted(r, cands) == Some(cands[i]),
{
    lemma_skip_unadmitted(r, cands, i);
    let rest = cands.subrange(i, cands.len() as int);
    assert(rest[0] == cands[i]);
}

/// The style components that remain consistent with what has been seen.
pub struct Possibs {
    pub pre: [bool; 4],
    pub case: [bool; 4],
    pub sep: [bool; 4],
}

impl Possibs {
    /// Whether leading separator `p` is still possible.
    pub open spec fn pre_ok(&self, p: Sep) -> bool {
        self.pre@[sep_index(p)]
    }

    /// Whether case convention `c` is still possible.
    pub open spec fn case_ok(&self, c: Case) -> bool {
        self.case@[case_index(c)]
    }

    /// Whether word separator `s` is still possible.
    pub open spec fn sep_ok(&self, s: Sep) -> bool {
        self.sep@[sep_index(s)]
    }

    /// Whether all three parts of `style` are still possible.
    pub open spec fn allows(&self, style: Style) -> bool {
        self.pre_ok(style.pre) && self.case_ok(style.case) && self.sep_ok(style.sep)
    }

    /// A set in which everything is possible.
    pub fn new() -> (r: Self)
        ensures
            forall|p: Sep| r.pre_ok(p),
            forall|c: Case| r.case_ok(c),
            forall|s: Sep| r.sep_ok(s),
            forall|i: int| 0 <= i < 4 ==> r.pre@[i] && r.case@[i] && r.sep@[i],
    {
        Self {
            pre: [true, true, true, true],
            case: [true, true, true, true],
            sep: [true, true, true, true],
        }
    }

    /// Whether all three parts of `style` are still possible.
    pub fn includes(&self, style: Style) -> (r: bool)
        ensures
            r == self.allows(style),
    {
        self.pre[style.pre.index()] && self.case[style.case.index()] && self.sep[style.sep.index()]
    }

    /// Makes `pre` the only possible leading separator.
    pub fn set_pre(&mut self, pre: Sep)
        ensures
            forall|p: Sep| final(self).pre_ok(p) == (p == pre),
            final(self).case@ == old(self).case@,
            final(self).sep@ == old(self).sep@,
    {
        let k = pre.index();
        for i in 0..4usize
            invariant
                k == sep_index(pre),
                self.case@ == old(self).case@,
                self.sep@ == old(self).sep@,
                forall|j: int| 0 <= j < i ==> self.pre@[j] == (j == k),
        {
            self.pre[i] = i == k;
        }
    }

    /// Makes `sep` the only possible word separator.
    pub fn set_sep(&mut self, sep: Sep)
        ensures
            forall|s: Sep| final(self).sep_ok(s) == (s == sep),
            forall|i: int| 0 <= i < 4 ==> final(self).sep@[i] == (i == sep_index(sep)),
            final(self).pre@ == old(self).pre@,
            final(self).case@ == old(self).case@,
    {
        let k = sep.index();
        for i in 0..4usize
            invariant
                k == sep_index(sep),
                self.pre@ == old(self).pre@,
                self.case@ == old(self).case@,
                forall|j: int| 0 <= j < i ==> self.sep@[j] == (j == k),
        {
            self.sep[i] = i == k;
        }
    }

    /// Rules out case convention `case`.
    pub fn rem_case(&mut self, case: Case)
        ensures
            forall|c: Case| final(self).case_ok(c) == (old(self).case_ok(c) && c != case),
            final(self).pre@ == old(self).pre@,
            final(self).sep@ == old(self).sep@,
    {
        self.case[case.index()] = false;
    }
}

/// Infers the style of reference `ident`, preferring `priorities` in order.
///
/// The result is the first of `priorities`, then of all styles in
/// enumeration order, that `ident` admits; an empty `ident` gives the
/// fallback style.
pub fn identify(ident: &str, priorities: &[Style]) -> (r: Style)
    ensures
        r == classify(ident@, priorities@),
{
    let fallback_style = Style { pre: Sep::Underscore, case: Case::Lower, sep: Sep::Underscore };
    let n = ident.unicode_len();
    if n == 0 {
        return fallback_style;
    }
    let ghost r = ident@;
    let mut possibs = Possibs::new();

    // A leading separator is taken as such and the rest is the body.
    let first = ident.get_char(0);
    let pre = Sep::of_char(first);
    let body: &str;
    if pre != Sep::Empty {
        possibs.set_pre(pre);
        body = ident.substring_char(1, n);
    } else {
        body = ident;
    }
    let m = body.unicode_len();
    let ghost b = body@;
    assert(b =~= body_of(r));
    assert(forall|p: Sep| possibs.pre_ok(p) == pre_allowed(r, p));
    assert(b.subrange(0, 0) =~= Seq::<char>::empty());

    // An uppercase first letter rules out camelCase, any other rules out Caps.
    if m > 0 && char_is_upper(body.get_char(0)) {
        possibs.rem_case(Case::Camel);
    } else {
        possibs.rem_case(Case::Caps);
    }

    let mut i: usize = 0;
    while i < m
        invariant
            i <= m,
            m == b.len(),
            body@ == b,
            b == body_of(r),
            r.len() > 0,
            forall|p: Sep| possibs.pre_ok(p) == pre_allowed(r, p),
            possibs.case_ok(Case::Camel) == !starts_upper(b),
            possibs.case_ok(Case::Caps) == starts_upper(b),
            possibs.case_ok(Case::Lower) == !has_upper(b.subrange(0, i as int)),
            possibs.case_ok(Case::AllCaps) == !has_lower(b.subrange(0, i as int)),
            last_sep(b.subrange(0, i as int)) is None ==> forall|j: int|
                0 <= j < 4 ==> possibs.sep@[j],
            last_sep(b.subrange(0, i as int)) is Some ==> forall|j: int|
                0 <= j < 4 ==> possibs.sep@[j] == (j == sep_index(
                    last_sep(b.subrange(0, i as int))->0,
                )),
        decreases m - i,
    {
        let c = body.get_char(i);
        let ghost before = b.subrange(0, i as int);
        let ghost after = b.subrange(0, i + 1);
        assert(after.drop_last() =~= before);
        assert(after.last() == c);

        // The word separator is the last one seen.
        let s = Sep::of_char(c);
        if s != Sep::Empty {
            possibs.set_sep(s);
        }

        if char_is_lower(c) {
            possibs.rem_case(Case::AllCaps);
        } else if char_is_upper(c) {
            possibs.rem_case(Case::Lower);
        }

        assert(has_lower(after) == (has_lower(before) || is_lower(c))) by {
            if has_lower(before) {
                let j = choose|j: int| 0 <= j < before.len() && is_lower(before[j]);
                assert(after[j] == before[j]);
            }
            if has_lower(after) && !is_lower(c) {
                let j = choose|j: int| 0 <= j < after.len() && is_lower(after[j]);
                assert(before[j] == after[j]);
            }
        }
        assert(has_upper(after) == (has_upper(before) || (!is_lower(c) && is_upper(c)))) by {
            if has_upper(before) {
                let j = choose|j: int| 0 <= j < before.len() && !is_lower(before[j]) && is_upper(before[j]);
                assert(after[j] == before[j]);
            }
            if has_upper(after) && !(!is_lower(c) && is_upper(c)) {
                let j = choose|j: int| 0 <= j < after.len() && !is_lower(after[j]) && is_upper(after[j]);
                assert(before[j] == after[j]);
            }
        }
        i = i + 1;
    }
    assert(b.subrange(0, m as int) =~= b);
    assert(forall|x: Sep, y: Sep| sep_index(x) == sep_index(y) ==> x == y);
    assert(forall|st: Style| possibs.allows(st) == admits(r, st));

    // Resolution: the priorities first, then every style in order.
    let ghost cands = priorities@ + all_styles();
    let mut k: usize = 0;
    while k < priorities.len()
        invariant
            k <= priorities.len(),
            r == ident@,
            r.len() > 0,
            cands == priorities@ + all_styles(),
            forall|st: Style| possibs.allows(st) == admits(r, st),
            forall|j: int| 0 <= j < k ==> !admits(r, #[trigger] cands[j]),
        decreases priorities.len() - k,
    {
        let style = priorities[k];
        assert(cands[k as int] == style);
        if possibs.includes(style) {
            proof {
                lemma_first_admitted_at(r, cands, k as int);
            }
            return style;
        }
        k = k + 1;
    }
    let np = priorities.len();
    let mut k: usize = 0;
    while k < 64
        invariant
            k <= 64,
            np == priorities@.len(),
            r == ident@,
            r.len() > 0,
            cands == priorities@ + all_styles(),
            forall|st: Style| possibs.allows(st) == admits(r, st),
            forall|j: int| 0 <= j < np + k ==> !admits(r, #[trigger] cands[j]),
        decreases 64 - k,
    {
        let style = Style { pre: Sep::at(k / 16), case: Case::at((k / 4) % 4), sep: Sep::at(k % 4) };
        assert(cands[np + k] == style);
        if possibs.includes(style) {
            proof {
                lemma_first_admitted_at(r, cands, np + k);
            }
            return style;
        }
        k = k + 1;
    }
    proof {
        lemma_skip_unadmitted(r, cands, cands.len() as int);
    }
    fallback_style
}

/// A caller's priority decides: where reference `r` admits the style at
/// position `i` of `prior`, and none before it, that style is the one
/// chosen, whatever the enumeration order would pick.
pub proof fn lemma_priority_wins(r: Seq<char>, prior: Seq<Style>, i: int)
    requires
        r.len() > 0,
        0 <= i < prior.len(),
        admits(r, prior[i]),
        forall|j: int| 0 <= j < i ==> !admits(r, #[trigger] prior[j]),
    ensures
        classify(r, prior) == prior[i],
{
    let cands = prior + all_styles();
    assert forall|j: int| 0 <= j < i implies !admits(r, #[trigger] cands[j]) by {
        assert(cands[j] == prior[j]);
    }
    assert(cands[i] == prior[i]);
    lemma_first_admitted_at(r, cands, i);
}

/// A reference of one lowercase letter is as ambiguous as a reference can
/// be; without priorities it always gets lowercase with no separators.
pub proof fn lemma_single_lowercase(c: char)
    requires
        is_lower(c),
        !is_sep_char(c),
    ensures
        classify(seq![c], seq![]) == (Style { pre: Sep::Empty, case: Case::Lower, sep: Sep::Empty }),
{
    let r = seq![c];
    let cands = Seq::<Style>::empty() + all_styles();
    assert(cands[0] == style_at(0));
    assert(body_of(r) == r);
    assert(r.last() == c);
    assert(r.drop_last() =~= Seq::<char>::empty());
    assert(last_sep(r.drop_last()) is None);
    assert(last_sep(r) is None);
    assert(!has_upper(r));
    lemma_first_admitted_at(r, cands, 0);
}

} // verus!
