//! The variant-mapping builder: the string table that renders each variant
//! of an enumeration, and the reverse lookup that reads those strings back.

use vstd::prelude::*;
use vstd::string::StringExecFns;
use crate::ascii::push_char;
use crate::options::EnumStringOptions;

verus! {

/// The string that `variant` of the enumeration `enum_name` renders to: the
/// enumeration's name is prepended first, if asked for, and the case style
/// is applied to the result.
pub open spec fn render(enum_name: Seq<char>, variant: Seq<char>, opts: EnumStringOptions) -> Seq<
    char,
> {
    let base = if opts.prepend_enum_name {
        enum_name + variant
    } else {
        variant
    };
    match opts.transform {
        Some(t) => t.apply(base),
        None => base,
    }
}

/// The rendering of every variant, in declaration order.
pub open spec fn render_all(
    enum_name: Seq<char>,
    variants: Seq<Seq<char>>,
    opts: EnumStringOptions,
) -> Seq<Seq<char>> {
    variants.map_values(|v: Seq<char>| render(enum_name, v, opts))
}

/// No string occurs twice.
pub open spec fn distinct(t: Seq<Seq<char>>) -> bool {
    forall|i: int, j: int| 0 <= i < j < t.len() ==> t[i] != t[j]
}

/// Positions `first < second` hold the same string, and no earlier pair
/// does: `second` is the first position whose string occurred before, and
/// `first` is where it occurred first.
pub open spec fn first_collision(t: Seq<Seq<char>>, first: int, second: int) -> bool {
    &&& 0 <= first < second < t.len()
    &&& t[first] == t[second]
    &&& distinct(t.subrange(0, second))
    &&& forall|x: int| 0 <= x < first ==> t[x] != t[second]
}

pub open spec fn views(v: Seq<String>) -> Seq<Seq<char>> {
    v.map_values(|s: String| s@)
}

/// `s` between double quotes.
pub open spec fn quoted(s: Seq<char>) -> Seq<char> {
    seq!['"'] + s + seq!['"']
}

/// The strings, each between double quotes, separated by a comma and a space.
pub open spec fn quoted_list(t: Seq<Seq<char>>) -> Seq<char>
    decreases t.len(),
{
    if t.len() == 0 {
        Seq::empty()
    } else if t.len() == 1 {
        quoted(t[0])
    } else {
        quoted_list(t.drop_last()) + seq![',', ' '] + quoted(t.last())
    }
}

/// Renders one variant name.
pub fn render_variant(enum_name: &str, variant: &str, opts: &EnumStringOptions) -> (r: String)
    ensures
        r@ == render(enum_name@, variant@, *opts),
{
    let base = if opts.prepend_enum_name {
        let mut out = String::from_str(enum_name);
        out.append(variant);
        out
    } else {
        String::from_str(variant)
    };
    match &opts.transform {
        Some(t) => t.transform(base.as_str()),
        None => base,
    }
}

/// Two variants render to the same string.
#[derive(Clone, Debug, PartialEq, Eq)]
pub struct DuplicateRendering {
    /// The position of the first of the two variants.
    pub first: usize,
    /// The position of the second of the two variants.
    pub second: usize,
    /// The string that both render to.
    pub rendered: String,
}

/// Text that names no variant.
#[derive(Clone, Debug, PartialEq, Eq)]
pub struct UnknownVariant {
    /// The text that was looked up.
    pub input: String,
    /// Every string that names a variant, in declaration order.
    pub expected: Vec<String>,
}

impl UnknownVariant {
    pub open spec fn spec_message(self) -> Seq<char> {
        "invalid value: string "@ + quoted(self.input@) + ", expected one of: "@ + quoted_list(
            views(self.expected@),
        )
    }

    /// A message that names the input and lists every accepted string.
    pub fn message(&self) -> (r: String)
        ensures
            r@ == self.spec_message(),
    {
        let mut out = String::from_str("invalid value: string ");
        let q = quote(self.input.as_str());
        out.append(q.as_str());
        out.append(", expected one of: ");
        let list = quote_list(&self.expected);
        out.append(list.as_str());
        out
    }
}

/// `s` between double quotes.
pub fn quote(s: &str) -> (r: String)
    ensures
        r@ == quoted(s@),
{
    let mut out = String::new();
    push_char(&mut out, '"');
    out.append(s);
    push_char(&mut out, '"');
    out
}

/// The strings, each between double quotes, separated by a comma and a space.
pub fn quote_list(t: &Vec<String>) -> (r: String)
    ensures
        r@ == quoted_list(views(t@)),
{
    let ghost ts = views(t@);
    let mut out = String::new();
    let mut k: usize = 0;
    while k < t.len()
        invariant
            k <= t@.len(),
            ts == views(t@),
            out@ == quoted_list(ts.subrange(0, k as int)),
        decreases t@.len() - k,
    {
        if k > 0 {
            push_char(&mut out, ',');
            push_char(&mut out, ' ');
        }
        let q = quote(t[k].as_str());
        out.append(q.as_str());
        proof {
            assert(ts.subrange(0, k + 1).drop_last() == ts.subrange(0, k as int));
            if k > 0 {
                assert(out@ =~= quoted_list(ts.subrange(0, k as int)) + seq![',', ' '] + quoted(
                    ts[k as int],
                ));
            }
        }
        k = k + 1;
    }
    proof {
        assert(ts.subrange(0, t@.len() as int) == ts);
    }
    out
}

/// The string table of one enumeration: each variant's name beside the
/// string it renders to, in declaration order.
pub struct EnumMapping {
    variants: Vec<String>,
    rendered: Vec<String>,
}

impl EnumMapping {
    /// The variants' names, in declaration order.
    pub closed spec fn names(&self) -> Seq<Seq<char>> {
        views(self.variants@)
    }

    /// The string each variant renders to, in declaration order.
    pub closed spec fn table(&self) -> Seq<Seq<char>> {
        views(self.rendered@)
    }

    /// One rendered string for each variant, and no string for two.
    pub closed spec fn wf(&self) -> bool {
        &&& self.variants@.len() == self.rendered@.len()
        &&& distinct(self.table())
    }

    /// The reverse index: the variant that a string names, if any.
    pub open spec fn lookup(&self, s: Seq<char>) -> Option<int> {
        if exists|i: int| 0 <= i < self.table().len() && self.table()[i] == s {
            Some(choose|i: int| 0 <= i < self.table().len() && self.table()[i] == s)
        } else {
            None
        }
    }

    /// Builds the string table of the enumeration `enum_name` with the given
    /// variants. Fails when two variants render to the same string.
    pub fn build(enum_name: &str, variants: &Vec<String>, options: &EnumStringOptions) -> (r: Result<
        EnumMapping,
        DuplicateRendering,
    >)
        ensures
            r is Ok <==> distinct(render_all(enum_name@, views(variants@), *options)),
            r matches Ok(m) ==> m.wf() && m.names() == views(variants@) && m.table() == render_all(
                enum_name@,
                views(variants@),
                *options,
            ),
            r matches Err(e) ==> first_collision(
                render_all(enum_name@, views(variants@), *options),
                e.first as int,
                e.second as int,
            ) && e.rendered@ == render(enum_name@, variants@[e.second as int]@, *options),
    {
        let ghost all = render_all(enum_name@, views(variants@), *options);
        let mut rendered: Vec<String> = Vec::new();
        let mut k: usize = 0;
        while k < variants.len()
            invariant
                k <= variants@.len(),
                all == render_all(enum_name@, views(variants@), *options),
                views(rendered@) == all.subrange(0, k as int),
            decreases variants@.len() - k,
        {
            let s = render_variant(enum_name, variants[k].as_str(), options);
            let ghost prev = rendered@;
            rendered.push(s);
            proof {
                assert(views(variants@)[k as int] == variants@[k as int]@);
                assert(rendered@ == prev.push(s));
                assert(views(rendered@) =~= views(prev).push(s@));
                assert(all[k as int] == s@);
                assert(views(rendered@) =~= all.subrange(0, k + 1));
            }
            k = k + 1;
        }
        proof {
            assert(all.subrange(0, variants@.len() as int) == all);
        }
        let n = rendered.len();
        let mut j: usize = 0;
        while j < n
            invariant
                n == rendered@.len(),
                j <= n,
                views(rendered@) == all,
                all.len() == variants@.len(),
                all == render_all(enum_name@, views(variants@), *options),
                distinct(all.subrange(0, j as int)),
            decreases n - j,
        {
            let mut i: usize = 0;
            while i < j
                invariant
                    n == rendered@.len(),
                    i <= j < n,
                    views(rendered@) == all,
                    all.len() == variants@.len(),
                    all == render_all(enum_name@, views(variants@), *options),
                    forall|x: int| 0 <= x < i ==> all[x] != all[j as int],
                    distinct(all.subrange(0, j as int)),
                decreases j - i,
            {
                if rendered[i] == rendered[j] {
                    proof {
                        assert(all[i as int] == rendered@[i as int]@);
                        assert(all[j as int] == rendered@[j as int]@);
                        assert(views(variants@)[i as int] == variants@[i as int]@);
                        assert(views(variants@)[j as int] == variants@[j as int]@);
                    }
                    return Err(
                        DuplicateRendering { first: i, second: j, rendered: rendered[j].clone() },
                    );
                }
                proof {
                    assert(all[i as int] == rendered@[i as int]@);
                    assert(all[j as int] == rendered@[j as int]@);
                }
                i = i + 1;
            }
            proof {
                let next = all.subrange(0, j + 1);
                assert forall|a: int, b: int| 0 <= a < b < next.len() implies next[a] != next[b] by {
                    if b < j {
                        assert(all.subrange(0, j as int)[a] == next[a]);
                        assert(all.subrange(0, j as int)[b] == next[b]);
                    }
                }
            }
            j = j + 1;
        }
        proof {
            assert(all.subrange(0, n as int) == all);
        }
        Ok(EnumMapping { variants: variants.clone(), rendered })
    }

    /// The number of variants.
    pub fn len(&self) -> (r: usize)
        requires
            self.wf(),
        ensures
            r == self.table().len(),
            r == self.names().len(),
    {
        self.rendered.len()
    }

    /// The name of the variant at position `variant`.
    pub fn variant_name(&self, variant: usize) -> (r: String)
        requires
            self.wf(),
            variant < self.names().len(),
        ensures
            r@ == self.names()[variant as int],
    {
        self.variants[variant].clone()
    }

    /// The string that the variant at position `variant` renders to.
    pub fn serialize(&self, variant: usize) -> (r: String)
        requires
            self.wf(),
            variant < self.table().len(),
        ensures
            r@ == self.table()[variant as int],
    {
        self.rendered[variant].clone()
    }

    /// The position of the variant that `input` names; fails with every
    /// accepted string when it names none.
    pub fn deserialize(&self, input: &str) -> (r: Result<usize, UnknownVariant>)
        requires
            self.wf(),
        ensures
            r matches Ok(i) ==> self.lookup(input@) == Some(i as int) && self.table()[i as int]
                == input@,
            r matches Err(e) ==> self.lookup(input@) is None && e.input@ == input@ && views(
                e.expected@,
            ) == self.table(),
            r is Ok <==> self.lookup(input@) is Some,
    {
        let s = String::from_str(input);
        let mut i: usize = 0;
        while i < self.rendered.len()
            invariant
                self.wf(),
                i <= self.rendered@.len(),
                s@ == input@,
                forall|x: int| 0 <= x < i ==> self.table()[x] != input@,
            decreases self.rendered@.len() - i,
        {
            if self.rendered[i] == s {
                proof {
                    assert(self.table()[i as int] == input@);
                    let c = choose|x: int| 0 <= x < self.table().len() && self.table()[x] == input@;
                    assert(c == i);
                }
                return Ok(i);
            }
            proof {
                assert(self.table()[i as int] == self.rendered@[i as int]@);
            }
            i = i + 1;
        }
        Err(UnknownVariant { input: s, expected: self.rendered.clone() })
    }

    /// Every accepted string between double quotes, separated by a comma and
    /// a space, in declaration order.
    pub fn expecting(&self) -> (r: String)
        ensures
            r@ == quoted_list(self.table()),
    {
        quote_list(&self.rendered)
    }
}

/// The reverse index is the exact inverse of the string table: a string is
/// looked up to a variant exactly when that variant renders to it, so reading
/// back what any variant serializes to gives that variant again.
pub proof fn lemma_reverse_index_inverts_table(m: &EnumMapping)
    requires
        m.wf(),
    ensures
        forall|s: Seq<char>| #[trigger]
            m.lookup(s) is Some ==> 0 <= m.lookup(s)->0 < m.table().len() && m.table()[m.lookup(
                s,
            )->0] == s,
        forall|s: Seq<char>| #[trigger]
            m.lookup(s) is None <==> (forall|i: int| 0 <= i < m.table().len() ==> m.table()[i] != s),
        forall|i: int| 0 <= i < m.table().len() ==> #[trigger] m.lookup(m.table()[i]) == Some(i),
{
    assert forall|i: int| 0 <= i < m.table().len() implies #[trigger] m.lookup(m.table()[i]) == Some(
        i,
    ) by {
        let s = m.table()[i];
        let c = choose|x: int| 0 <= x < m.table().len() && m.table()[x] == s;
        assert(c == i);
    }
}

/// Round trip: for every variant of a built mapping, deserializing the
/// string that it serializes to gives back that variant.
pub proof fn lemma_round_trip(m: &EnumMapping, variant: int)
    requires
        m.wf(),
        0 <= variant < m.table().len(),
    ensures
        m.lookup(m.table()[variant]) == Some(variant),
{
    lemma_reverse_index_inverts_table(m);
}

} // verus!
