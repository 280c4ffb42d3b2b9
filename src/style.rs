use vstd::prelude::*;

verus! {

/// Which letters to uppercase.
#[derive(Clone, Copy, PartialEq, Eq, Structural, Debug, Hash)]
pub enum Case {
    /// All letters are lowercase.
    Lower,
    /// The first letter of every word but the first is uppercase.
    Camel,
    /// The first letter of every word is uppercase.
    Caps,
    /// All letters are uppercase.
    AllCaps,
}

/// Separator kinds, used both between words and before the first word.
#[derive(Clone, Copy, PartialEq, Eq, Structural, Debug, Hash)]
pub enum Sep {
    /// No separator at all.
    Empty,
    /// An underscore.
    Underscore,
    /// A hyphen.
    Hyphen,
    /// A space.
    Space,
}

/// An identifier style.
#[derive(Clone, Copy, PartialEq, Eq, Structural, Debug, Hash)]
pub struct Style {
    /// Separator written before the first word.
    pub pre: Sep,
    /// Which letters are uppercase.
    pub case: Case,
    /// Separator written between words.
    pub sep: Sep,
}

/// The characters that separate words.
pub open spec fn is_sep_char(c: char) -> bool {
    c == '_' || c == '-' || c == ' '
}

/// The separator kind that a character stands for (`Empty` for any other).
pub open spec fn sep_of_char(c: char) -> Sep {
    if c == '_' {
        Sep::Underscore
    } else if c == '-' {
        Sep::Hyphen
    } else if c == ' ' {
        Sep::Space
    } else {
        Sep::Empty
    }
}

/// The text a separator is written as.
pub open spec fn sep_text(s: Sep) -> Seq<char> {
    match s {
        Sep::Empty => seq![],
        Sep::Underscore => seq!['_'],
        Sep::Hyphen => seq!['-'],
        Sep::Space => seq![' '],
    }
}

/// Position of a separator kind in declaration order.
pub open spec fn sep_index(s: Sep) -> int {
    match s {
        Sep::Empty => 0,
        Sep::Underscore => 1,
        Sep::Hyphen => 2,
        Sep::Space => 3,
    }
}

/// Position of a case convention in declaration order.
pub open spec fn case_index(c: Case) -> int {
    match c {
        Case::Lower => 0,
        Case::Camel => 1,
        Case::Caps => 2,
        Case::AllCaps => 3,
    }
}

/// The separator kind at a position of the declaration order.
pub open spec fn sep_at(i: int) -> Sep {
    if i == 0 {
        Sep::Empty
    } else if i == 1 {
        Sep::Underscore
    } else if i == 2 {
        Sep::Hyphen
    } else {
        Sep::Space
    }
}

/// The case convention at a position of the declaration order.
pub open spec fn case_at(i: int) -> Case {
    if i == 0 {
        Case::Lower
    } else if i == 1 {
        Case::Camel
    } else if i == 2 {
        Case::Caps
    } else {
        Case::AllCaps
    }
}

/// The case convention given by the case of a first and a second letter.
pub open spec fn case_of_letters(first_upper: bool, second_upper: bool) -> Case {
    if first_upper && second_upper {
        Case::AllCaps
    } else if first_upper {
        Case::Caps
    } else if second_upper {
        Case::Camel
    } else {
        Case::Lower
    }
}

/// Whether an ASCII letter is uppercase; `None` for any other character.
pub open spec fn letter_case(c: char) -> Option<bool> {
    if 'a' <= c <= 'z' {
        Some(false)
    } else if 'A' <= c <= 'Z' {
        Some(true)
    } else {
        None
    }
}

/// The style that a compact style description denotes.
///
/// The description is an optional leading separator, a letter whose case is
/// that of a first word's first letter, an optional word separator, and a
/// letter whose case is that of a later word's first letter. Anything after
/// the second letter is ignored.
pub open spec fn parse_spec(s: Seq<char>) -> Option<Style> {
    let a: int = if s.len() > 0 && is_sep_char(s[0]) { 1 } else { 0 };
    let pre = if a == 1 { sep_of_char(s[0]) } else { Sep::Empty };
    if s.len() < a + 2 {
        None
    } else {
        let b: int = if is_sep_char(s[a + 1]) { a + 2 } else { a + 1 };
        if s.len() <= b {
            None
        } else {
            match (letter_case(s[a]), letter_case(s[b])) {
                (Some(f), Some(g)) => Some(
                    Style { pre, case: case_of_letters(f, g), sep: sep_of_char(s[a + 1]) },
                ),
                _ => None,
            }
        }
    }
}

impl Sep {
    /// The separator kind that `c` stands for (`Empty` for any other character).
    pub fn of_char(c: char) -> (r: Sep)
        ensures
            r == sep_of_char(c),
    {
        if c == '_' {
            Sep::Underscore
        } else if c == '-' {
            Sep::Hyphen
        } else if c == ' ' {
            Sep::Space
        } else {
            Sep::Empty
        }
    }

    /// Position in declaration order.
    pub fn index(&self) -> (r: usize)
        ensures
            r == sep_index(*self),
    {
        match self {
            Sep::Empty => 0,
            Sep::Underscore => 1,
            Sep::Hyphen => 2,
            Sep::Space => 3,
        }
    }

    /// The separator kind at a position of the declaration order.
    pub fn at(i: usize) -> (r: Sep)
        requires
            i < 4,
        ensures
            r == sep_at(i as int),
            sep_index(r) == i,
    {
        if i == 0 {
            Sep::Empty
        } else if i == 1 {
            Sep::Underscore
        } else if i == 2 {
            Sep::Hyphen
        } else {
            Sep::Space
        }
    }

    /// Appends the separator's text to `ident`.
    pub fn add_to(&self, ident: &mut String)
        ensures
            final(ident)@ == old(ident)@ + sep_text(*self),
    {
        match self {
            Sep::Empty => {},
            Sep::Underscore => {
                proof {
                    reveal_strlit("_");
                }
                ident.append("_");
            },
            Sep::Hyphen => {
                proof {
                    reveal_strlit("-");
                }
                ident.append("-");
            },
            Sep::Space => {
                proof {
                    reveal_strlit(" ");
                }
                ident.append(" ");
            },
        }
        assert(final(ident)@ =~= old(ident)@ + sep_text(*self));
    }
}

impl Case {
    /// Position in declaration order.
    pub fn index(&self) -> (r: usize)
        ensures
            r == case_index(*self),
    {
        match self {
            Case::Lower => 0,
            Case::Camel => 1,
            Case::Caps => 2,
            Case::AllCaps => 3,
        }
    }

    /// The case convention at a position of the declaration order.
    pub fn at(i: usize) -> (r: Case)
        requires
            i < 4,
        ensures
            r == case_at(i as int),
            case_index(r) == i,
    {
        if i == 0 {
            Case::Lower
        } else if i == 1 {
            Case::Camel
        } else if i == 2 {
            Case::Caps
        } else {
            Case::AllCaps
        }
    }
}

/// Whether an ASCII letter is uppercase; `None` for any other character.
fn letter_is_upper(c: char) -> (r: Option<bool>)
    ensures
        r == letter_case(c),
{
    if 'a' <= c && c <= 'z' {
        Some(false)
    } else if 'A' <= c && c <= 'Z' {
        Some(true)
    } else {
        None
    }
}

impl Style {
    /// Parses a compact style description such as `"aA"`, `"_a_a"` or
    /// `"A-A"`: an optional leading separator, a letter whose case is that
    /// of a first word's first letter, an optional word separator, and a
    /// letter whose case is that of a later word's first letter.
    ///
    /// Fails where the description is too short or a letter is missing.
    pub fn parse(value: &str) -> (r: Result<Style, ()>)
        ensures
            r matches Ok(st) ==> parse_spec(value@) == Some(st),
            r is Err <==> parse_spec(value@) is None,
    {
        let n = value.unicode_len();
        if n == 0 {
            return Err(());
        }
        // Leading separator
        let pre = Sep::of_char(value.get_char(0));
        let a: usize = if pre != Sep::Empty { 1 } else { 0 };
        if n < a + 2 {
            return Err(());
        }
        // First letter
        let first = match letter_is_upper(value.get_char(a)) {
            Some(f) => f,
            None => return Err(()),
        };
        // Word separator
        let sep = Sep::of_char(value.get_char(a + 1));
        let b: usize = if sep != Sep::Empty { a + 2 } else { a + 1 };
        if n <= b {
            return Err(());
        }
        // Second letter
        let second = match letter_is_upper(value.get_char(b)) {
            Some(g) => g,
            None => return Err(()),
        };
        let case = if first && second {
            Case::AllCaps
        } else if first {
            Case::Caps
        } else if second {
            Case::Camel
        } else {
            Case::Lower
        };
        Ok(Style { pre, case, sep })
    }
}

} // verus!
