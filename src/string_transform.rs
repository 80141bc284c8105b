//! The case-transform engine: splitting an identifier into words at its
//! uppercase letters, and rendering it in one of eight case styles.

use vstd::prelude::*;
use vstd::string::{StrSliceExecFns, StringExecFns};
use crate::ascii::{
    ascii_lowercase, ascii_uppercase, is_ascii_upper, is_upper, lower_char, lower_seq, push_char,
    to_lower_char, to_upper_char, upper_char, upper_seq,
};

verus! {

/// The words of an identifier, read left to right: every uppercase ASCII
/// letter after the first character starts a new word, and the first
/// character always starts one. A non-empty identifier without uppercase
/// letters is therefore one word; the empty identifier has none.
pub open spec fn words_of(s: Seq<char>) -> Seq<Seq<char>>
    decreases s.len(),
{
    if s.len() == 0 {
        Seq::empty()
    } else {
        let w = words_of(s.drop_last());
        let c = s.last();
        if s.len() == 1 || is_upper(c) {
            w.push(seq![c])
        } else {
            w.update(w.len() - 1, w.last().push(c))
        }
    }
}

/// The words laid end to end.
pub open spec fn concat(ws: Seq<Seq<char>>) -> Seq<char>
    decreases ws.len(),
{
    if ws.len() == 0 {
        Seq::empty()
    } else {
        concat(ws.drop_last()) + ws.last()
    }
}

/// The words laid end to end with `sep` between each two of them.
pub open spec fn join(ws: Seq<Seq<char>>, sep: char) -> Seq<char>
    decreases ws.len(),
{
    if ws.len() == 0 {
        Seq::empty()
    } else if ws.len() == 1 {
        ws[0]
    } else {
        join(ws.drop_last(), sep).push(sep) + ws.last()
    }
}

/// A word with its first character in uppercase and the rest in lowercase.
pub open spec fn title_word(w: Seq<char>) -> Seq<char> {
    if w.len() == 0 {
        w
    } else {
        seq![upper_char(w[0])] + lower_seq(w.drop_first())
    }
}

/// `s` with its first character in lowercase.
pub open spec fn lower_first(s: Seq<char>) -> Seq<char> {
    if s.len() == 0 {
        s
    } else {
        s.update(0, lower_char(s[0]))
    }
}

/// PascalCase: each word with its first character in uppercase and the rest
/// in lowercase, with no separator.
pub open spec fn pascal_case(s: Seq<char>) -> Seq<char> {
    concat(words_of(s).map_values(|w: Seq<char>| title_word(w)))
}

/// camelCase: the PascalCase form with its first character in lowercase.
pub open spec fn camel_case(s: Seq<char>) -> Seq<char> {
    lower_first(pascal_case(s))
}

/// Each word in lowercase, with `sep` between them (snake_case, kebab-case).
pub open spec fn lower_words_joined(s: Seq<char>, sep: char) -> Seq<char> {
    join(words_of(s).map_values(|w: Seq<char>| lower_seq(w)), sep)
}

/// Each word in uppercase, with `sep` between them (SCREAMING_SNAKE_CASE,
/// SCREAMING-KEBAB-CASE).
pub open spec fn upper_words_joined(s: Seq<char>, sep: char) -> Seq<char> {
    join(words_of(s).map_values(|w: Seq<char>| upper_seq(w)), sep)
}

/// A word in lowercase or, when `upper` holds, in uppercase.
pub open spec fn cased(w: Seq<char>, upper: bool) -> Seq<char> {
    if upper {
        upper_seq(w)
    } else {
        lower_seq(w)
    }
}

/// `s` with its first character in uppercase and the rest in lowercase.
fn title_word_of(s: &str) -> (r: String)
    ensures
        r@ == title_word(s@),
{
    let n = s.unicode_len();
    let mut out = String::new();
    let mut i: usize = 0;
    while i < n
        invariant
            n == s@.len(),
            i <= n,
            out@ == title_word(s@.subrange(0, i as int)),
        decreases n - i,
    {
        let c = s.get_char(i);
        let ghost pre = s@.subrange(0, i as int);
        if i == 0 {
            push_char(&mut out, to_upper_char(c));
        } else {
            push_char(&mut out, to_lower_char(c));
        }
        proof {
            let next = s@.subrange(0, i + 1);
            assert(next == pre.push(c));
            if i > 0 {
                assert(next.drop_first() == pre.drop_first().push(c));
            }
            assert(out@ =~= title_word(next));
        }
        i = i + 1;
    }
    proof {
        assert(s@.subrange(0, n as int) == s@);
    }
    out
}

/// `s` with its first character in lowercase.
fn lower_first_of(s: &str) -> (r: String)
    ensures
        r@ == lower_first(s@),
{
    let n = s.unicode_len();
    let mut out = String::new();
    let mut i: usize = 0;
    while i < n
        invariant
            n == s@.len(),
            i <= n,
            out@ == lower_first(s@.subrange(0, i as int)),
        decreases n - i,
    {
        let c = s.get_char(i);
        let ghost pre = s@.subrange(0, i as int);
        if i == 0 {
            push_char(&mut out, to_lower_char(c));
        } else {
            push_char(&mut out, c);
        }
        proof {
            let next = s@.subrange(0, i + 1);
            assert(next == pre.push(c));
            assert(out@ =~= lower_first(next));
        }
        i = i + 1;
    }
    proof {
        assert(s@.subrange(0, n as int) == s@);
    }
    out
}

/// The words with the first character of each in uppercase and the rest in
/// lowercase, laid end to end.
fn concat_titled(parts: &Vec<String>) -> (r: String)
    ensures
        r@ == concat(parts@.map_values(|w: String| title_word(w@))),
{
    let ghost ws = parts@.map_values(|w: String| title_word(w@));
    let mut out = String::new();
    let mut k: usize = 0;
    while k < parts.len()
        invariant
            k <= parts@.len(),
            ws == parts@.map_values(|w: String| title_word(w@)),
            out@ == concat(ws.subrange(0, k as int)),
        decreases parts@.len() - k,
    {
        let t = title_word_of(parts[k].as_str());
        out.append(t.as_str());
        proof {
            assert(ws.subrange(0, k + 1).drop_last() == ws.subrange(0, k as int));
        }
        k = k + 1;
    }
    proof {
        assert(ws.subrange(0, parts@.len() as int) == ws);
    }
    out
}

/// The words, each in lowercase or, when `upper` holds, in uppercase, with
/// `sep` between each two of them.
fn join_cased(parts: &Vec<String>, sep: char, upper: bool) -> (r: String)
    ensures
        r@ == join(parts@.map_values(|w: String| cased(w@, upper)), sep),
{
    let ghost ws = parts@.map_values(|w: String| cased(w@, upper));
    let mut out = String::new();
    let mut k: usize = 0;
    while k < parts.len()
        invariant
            k <= parts@.len(),
            ws == parts@.map_values(|w: String| cased(w@, upper)),
            out@ == join(ws.subrange(0, k as int), sep),
        decreases parts@.len() - k,
    {
        if k > 0 {
            push_char(&mut out, sep);
        }
        let w = if upper {
            ascii_uppercase(parts[k].as_str())
        } else {
            ascii_lowercase(parts[k].as_str())
        };
        out.append(w.as_str());
        proof {
            assert(ws.subrange(0, k + 1).drop_last() == ws.subrange(0, k as int));
            if k == 0 {
                assert(out@ =~= ws[0]);
            }
        }
        k = k + 1;
    }
    proof {
        assert(ws.subrange(0, parts@.len() as int) == ws);
    }
    out
}

/// The eight case styles.
#[derive(Clone, Copy, Debug, PartialEq, Eq, Structural)]
pub enum StringTransform {
    Lowercase,
    Uppercase,
    PascalCase,
    CamelCase,
    SnakeCase,
    ScreamingSnakeCase,
    KebabCase,
    ScreamingKebabCase,
}

impl StringTransform {
    /// The keyword that names the style in a configuration.
    pub open spec fn keyword(self) -> Seq<char> {
        match self {
            StringTransform::Lowercase => "lowercase"@,
            StringTransform::Uppercase => "UPPERCASE"@,
            StringTransform::PascalCase => "PascalCase"@,
            StringTransform::CamelCase => "camelCase"@,
            StringTransform::SnakeCase => "snake_case"@,
            StringTransform::ScreamingSnakeCase => "SCREAMING_SNAKE_CASE"@,
            StringTransform::KebabCase => "kebab-case"@,
            StringTransform::ScreamingKebabCase => "SCREAMING-KEBAB-CASE"@,
        }
    }

    /// The style that the keyword `s` names, if any.
    pub open spec fn from_keyword(s: Seq<char>) -> Option<StringTransform> {
        if s == "lowercase"@ {
            Some(StringTransform::Lowercase)
        } else if s == "UPPERCASE"@ {
            Some(StringTransform::Uppercase)
        } else if s == "PascalCase"@ {
            Some(StringTransform::PascalCase)
        } else if s == "camelCase"@ {
            Some(StringTransform::CamelCase)
        } else if s == "snake_case"@ {
            Some(StringTransform::SnakeCase)
        } else if s == "SCREAMING_SNAKE_CASE"@ {
            Some(StringTransform::ScreamingSnakeCase)
        } else if s == "kebab-case"@ {
            Some(StringTransform::KebabCase)
        } else if s == "SCREAMING-KEBAB-CASE"@ {
            Some(StringTransform::ScreamingKebabCase)
        } else {
            None
        }
    }

    /// Reads a style keyword; `None` for any other text.
    pub fn from_str(s: &str) -> (r: Option<StringTransform>)
        ensures
            r == Self::from_keyword(s@),
    {
        let s = String::from_str(s);
        if s == String::from_str("lowercase") {
            Some(StringTransform::Lowercase)
        } else if s == String::from_str("UPPERCASE") {
            Some(StringTransform::Uppercase)
        } else if s == String::from_str("PascalCase") {
            Some(StringTransform::PascalCase)
        } else if s == String::from_str("camelCase") {
            Some(StringTransform::CamelCase)
        } else if s == String::from_str("snake_case") {
            Some(StringTransform::SnakeCase)
        } else if s == String::from_str("SCREAMING_SNAKE_CASE") {
            Some(StringTransform::ScreamingSnakeCase)
        } else if s == String::from_str("kebab-case") {
            Some(StringTransform::KebabCase)
        } else if s == String::from_str("SCREAMING-KEBAB-CASE") {
            Some(StringTransform::ScreamingKebabCase)
        } else {
            None
        }
    }

    /// What the style makes of the identifier `s`.
    pub open spec fn apply(self, s: Seq<char>) -> Seq<char> {
        match self {
            StringTransform::Lowercase => lower_seq(s),
            StringTransform::Uppercase => upper_seq(s),
            StringTransform::PascalCase => pascal_case(s),
            StringTransform::CamelCase => camel_case(s),
            StringTransform::SnakeCase => lower_words_joined(s, '_'),
            StringTransform::ScreamingSnakeCase => upper_words_joined(s, '_'),
            StringTransform::KebabCase => lower_words_joined(s, '-'),
            StringTransform::ScreamingKebabCase => upper_words_joined(s, '-'),
        }
    }

    /// Splits `input` into its words (see `words_of`).
    pub fn split_by_case(input: &str) -> (r: Vec<String>)
        ensures
            r@.map_values(|w: String| w@) == words_of(input@),
    {
        let n = input.unicode_len();
        let mut out: Vec<String> = Vec::new();
        let mut current = String::new();
        let mut i: usize = 0;
        while i < n
            invariant
                n == input@.len(),
                i <= n,
                i == 0 ==> out@.len() == 0 && current@.len() == 0,
                i > 0 ==> out@.map_values(|w: String| w@).push(current@) == words_of(
                    input@.subrange(0, i as int),
                ),
            decreases n - i,
        {
            let c = input.get_char(i);
            let ghost prev = out@.map_values(|w: String| w@);
            let ghost cur = current@;
            let ghost pre = input@.subrange(0, i as int);
            let ghost next = input@.subrange(0, i + 1);
            proof {
                assert(next.drop_last() == pre);
                assert(next.last() == c);
            }
            if i == 0 {
                push_char(&mut current, c);
                proof {
                    assert(words_of(next) == words_of(pre).push(seq![c]));
                    assert(current@ == seq![c]);
                    assert(out@.map_values(|w: String| w@).push(current@) =~= words_of(next));
                }
            } else if is_ascii_upper(c) {
                let mut fresh = String::new();
                push_char(&mut fresh, c);
                out.push(current);
                current = fresh;
                proof {
                    assert(out@.map_values(|w: String| w@) =~= prev.push(cur));
                    assert(out@.map_values(|w: String| w@).push(current@) =~= words_of(next));
                }
            } else {
                push_char(&mut current, c);
                proof {
                    assert(out@.map_values(|w: String| w@).push(current@) =~= words_of(next));
                }
            }
            i = i + 1;
        }
        proof {
            assert(input@.subrange(0, n as int) == input@);
        }
        if n > 0 {
            let ghost prev = out@.map_values(|w: String| w@);
            let ghost cur = current@;
            out.push(current);
            proof {
                assert(out@.map_values(|w: String| w@) =~= prev.push(cur));
            }
        }
        out
    }

    /// `input` in lowercase.
    pub fn transform_lowercase(input: &str) -> (r: String)
        ensures
            r@ == lower_seq(input@),
    {
        ascii_lowercase(input)
    }

    /// `input` in UPPERCASE.
    pub fn transform_uppercase(input: &str) -> (r: String)
        ensures
            r@ == upper_seq(input@),
    {
        ascii_uppercase(input)
    }

    /// `input` in PascalCase.
    pub fn transform_pascalcase(input: &str) -> (r: String)
        ensures
            r@ == pascal_case(input@),
    {
        let parts = Self::split_by_case(input);
        proof {
            assert(parts@.map_values(|w: String| title_word(w@)) =~= words_of(input@).map_values(
                |w: Seq<char>| title_word(w),
            ));
        }
        concat_titled(&parts)
    }

    /// `input` in camelCase.
    pub fn transform_camelcase(input: &str) -> (r: String)
        ensures
            r@ == camel_case(input@),
    {
        let pascal = Self::transform_pascalcase(input);
        lower_first_of(pascal.as_str())
    }

    /// Each word of `input` in lowercase or, when `upper` holds, in
    /// uppercase, with `sep` between them.
    fn joined(input: &str, sep: char, upper: bool) -> (r: String)
        ensures
            r@ == join(words_of(input@).map_values(|w: Seq<char>| cased(w, upper)), sep),
    {
        let parts = Self::split_by_case(input);
        proof {
            assert(parts@.map_values(|w: String| cased(w@, upper)) =~= words_of(
                input@,
            ).map_values(|w: Seq<char>| cased(w, upper)));
        }
        join_cased(&parts, sep, upper)
    }

    /// `input` in snake_case.
    pub fn transform_snakecase(input: &str) -> (r: String)
        ensures
            r@ == lower_words_joined(input@, '_'),
    {
        let r = Self::joined(input, '_', false);
        proof {
            assert(words_of(input@).map_values(|w: Seq<char>| cased(w, false)) =~= words_of(
                input@,
            ).map_values(|w: Seq<char>| lower_seq(w)));
        }
        r
    }

    /// `input` in SCREAMING_SNAKE_CASE.
    pub fn transform_screaming_snakecase(input: &str) -> (r: String)
        ensures
            r@ == upper_words_joined(input@, '_'),
    {
        let r = Self::joined(input, '_', true);
        proof {
            assert(words_of(input@).map_values(|w: Seq<char>| cased(w, true)) =~= words_of(
                input@,
            ).map_values(|w: Seq<char>| upper_seq(w)));
        }
        r
    }

    /// `input` in kebab-case.
    pub fn transform_kebabcase(input: &str) -> (r: String)
        ensures
            r@ == lower_words_joined(input@, '-'),
    {
        let r = Self::joined(input, '-', false);
        proof {
            assert(words_of(input@).map_values(|w: Seq<char>| cased(w, false)) =~= words_of(
                input@,
            ).map_values(|w: Seq<char>| lower_seq(w)));
        }
        r
    }

    /// `input` in SCREAMING-KEBAB-CASE.
    pub fn transform_screaming_kebabcase(input: &str) -> (r: String)
        ensures
            r@ == upper_words_joined(input@, '-'),
    {
        let r = Self::joined(input, '-', true);
        proof {
            assert(words_of(input@).map_values(|w: Seq<char>| cased(w, true)) =~= words_of(
                input@,
            ).map_values(|w: Seq<char>| upper_seq(w)));
        }
        r
    }

    /// Renders `input` in this style.
    pub fn transform(&self, input: &str) -> (r: String)
        ensures
            r@ == self.apply(input@),
    {
        match self {
            StringTransform::Lowercase => Self::transform_lowercase(input),
            StringTransform::Uppercase => Self::transform_uppercase(input),
            StringTransform::PascalCase => Self::transform_pascalcase(input),
            StringTransform::CamelCase => Self::transform_camelcase(input),
            StringTransform::SnakeCase => Self::transform_snakecase(input),
            StringTransform::ScreamingSnakeCase => Self::transform_screaming_snakecase(input),
            StringTransform::KebabCase => Self::transform_kebabcase(input),
            StringTransform::ScreamingKebabCase => Self::transform_screaming_kebabcase(input),
        }
    }
}

/// Each style is read back from its own keyword.
pub proof fn lemma_keyword_round_trip(t: StringTransform)
    ensures
        StringTransform::from_keyword(t.keyword()) == Some(t),
{
    reveal_strlit("lowercase");
    reveal_strlit("UPPERCASE");
    reveal_strlit("PascalCase");
    reveal_strlit("camelCase");
    reveal_strlit("snake_case");
    reveal_strlit("SCREAMING_SNAKE_CASE");
    reveal_strlit("kebab-case");
    reveal_strlit("SCREAMING-KEBAB-CASE");
    let k = t.keyword();
    assert(k[0] == "lowercase"@[0] ==> k == "lowercase"@);
    assert(k[0] == "UPPERCASE"@[0] ==> k == "UPPERCASE"@);
    assert(k[0] == "PascalCase"@[0] ==> k == "PascalCase"@);
    assert(k[0] == "camelCase"@[0] ==> k == "camelCase"@);
    assert(k[0] == "snake_case"@[0] ==> k == "snake_case"@);
    assert(k[0] == "kebab-case"@[0] ==> k == "kebab-case"@);
    assert(k.len() > 9 && k[9] == "SCREAMING_SNAKE_CASE"@[9] && k[0] == 'S' ==> k
        == "SCREAMING_SNAKE_CASE"@);
}

/// The words of an identifier cover it exactly, in order; each is non-empty;
/// only its first character can be an uppercase letter; and every word after
/// the first begins with one. So a new word starts at each uppercase letter
/// inside the identifier and nowhere else.
pub proof fn lemma_words_of(s: Seq<char>)
    ensures
        concat(words_of(s)) == s,
        words_of(s).len() == 0 <==> s.len() == 0,
        forall|k: int| 0 <= k < words_of(s).len() ==> #[trigger] words_of(s)[k].len() > 0,
        forall|k: int, x: int|
            0 <= k < words_of(s).len() && 0 < x < words_of(s)[k].len() ==> !is_upper(
                #[trigger] words_of(s)[k][x],
            ),
        forall|k: int| 0 < k < words_of(s).len() ==> is_upper(#[trigger] words_of(s)[k][0]),
    decreases s.len(),
{
    if s.len() > 0 {
        let p = s.drop_last();
        lemma_words_of(p);
        let w = words_of(p);
        let c = s.last();
        if s.len() == 1 || is_upper(c) {
            assert(words_of(s) == w.push(seq![c]));
            assert(words_of(s).drop_last() == w);
            assert(concat(words_of(s)) == concat(w) + seq![c]);
            assert(p.push(c) == s);
            assert(s =~= p + seq![c]);
        } else {
            let ws = words_of(s);
            assert(ws == w.update(w.len() - 1, w.last().push(c)));
            assert(ws.drop_last() == w.drop_last());
            assert(concat(w) == concat(w.drop_last()) + w.last());
            assert(concat(ws) == concat(w.drop_last()) + w.last().push(c));
            assert(s =~= p + seq![c]);
            assert(concat(ws) =~= s);
            assert forall|k: int, x: int|
                0 <= k < ws.len() && 0 < x < ws[k].len() implies !is_upper(#[trigger] ws[k][x]) by {
                if k == w.len() - 1 && x == ws[k].len() - 1 {
                    assert(ws[k][x] == c);
                } else if k == w.len() - 1 {
                    assert(ws[k][x] == w[k][x]);
                }
            }
            assert forall|k: int| 0 < k < ws.len() implies is_upper(#[trigger] ws[k][0]) by {
                if k == w.len() - 1 {
                    assert(ws[k][0] == w[k][0]);
                }
            }
        }
    }
}

} // verus!
