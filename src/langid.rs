//! Language identifiers: a validated tag made of a language subtag, an
//! optional script subtag and an optional region subtag, with one canonical
//! text form (`sr-Latn-RS`).
use vstd::prelude::*;

use crate::text::push_char;

verus! {

// ---------------------------------------------------------------------------
// Characters
// ---------------------------------------------------------------------------

pub open spec fn is_sep(c: char) -> bool {
    c == '-' || c == '_'
}

pub open spec fn is_upper(c: char) -> bool {
    'A' <= c && c <= 'Z'
}

pub open spec fn is_lower(c: char) -> bool {
    'a' <= c && c <= 'z'
}

pub open spec fn is_alpha(c: char) -> bool {
    is_upper(c) || is_lower(c)
}

pub open spec fn is_digit(c: char) -> bool {
    '0' <= c && c <= '9'
}

pub open spec fn lower(c: char) -> char {
    if is_upper(c) {
        ((c as u32) + 32) as char
    } else {
        c
    }
}

pub open spec fn upper(c: char) -> char {
    if is_lower(c) {
        ((c as u32) - 32) as char
    } else {
        c
    }
}

pub open spec fn all_alpha(s: Seq<char>) -> bool {
    forall|i: int| 0 <= i < s.len() ==> #[trigger] is_alpha(s[i])
}

pub open spec fn all_digit(s: Seq<char>) -> bool {
    forall|i: int| 0 <= i < s.len() ==> #[trigger] is_digit(s[i])
}

pub open spec fn no_sep(s: Seq<char>) -> bool {
    forall|i: int| 0 <= i < s.len() ==> !#[trigger] is_sep(s[i])
}

pub open spec fn lower_seq(s: Seq<char>) -> Seq<char> {
    Seq::new(s.len(), |i: int| lower(s[i]))
}

pub open spec fn upper_seq(s: Seq<char>) -> Seq<char> {
    Seq::new(s.len(), |i: int| upper(s[i]))
}

/// First character upper case, the rest lower case.
pub open spec fn title_seq(s: Seq<char>) -> Seq<char> {
    Seq::new(s.len(), |i: int| if i == 0 { upper(s[i]) } else { lower(s[i]) })
}

// ---------------------------------------------------------------------------
// Subtags
// ---------------------------------------------------------------------------

pub open spec fn is_language_subtag(s: Seq<char>) -> bool {
    ((2 <= s.len() <= 3) || (5 <= s.len() <= 8)) && all_alpha(s)
}

pub open spec fn is_script_subtag(s: Seq<char>) -> bool {
    s.len() == 4 && all_alpha(s)
}

pub open spec fn is_region_subtag(s: Seq<char>) -> bool {
    (s.len() == 2 && all_alpha(s)) || (s.len() == 3 && all_digit(s))
}

/// Index of the first separator in `s`, or its length when there is none.
pub open spec fn sep_index(s: Seq<char>) -> nat
    decreases s.len(),
{
    if s.len() == 0 {
        0
    } else if is_sep(s[0]) {
        0
    } else {
        1 + sep_index(s.drop_first())
    }
}

/// The subtags of `s`: the pieces between separators.
pub open spec fn segments(s: Seq<char>) -> Seq<Seq<char>>
    decreases s.len(),
{
    let j = sep_index(s) as int;
    if j >= s.len() {
        seq![s]
    } else {
        seq![s.subrange(0, j)] + segments(s.subrange(j + 1, s.len() as int))
    }
}

pub open spec fn dash() -> Seq<char> {
    seq!['-']
}

/// Canonical text of the subtags after the language, given the text so far:
/// an optional script, then an optional region, then nothing.
pub open spec fn canonical_region(acc: Seq<char>, rest: Seq<Seq<char>>) -> Option<Seq<char>> {
    if rest.len() == 0 {
        Some(acc)
    } else if rest.len() == 1 && is_region_subtag(rest[0]) {
        Some(acc + dash() + upper_seq(rest[0]))
    } else {
        None
    }
}

pub open spec fn canonical_tail(acc: Seq<char>, rest: Seq<Seq<char>>) -> Option<Seq<char>> {
    if rest.len() > 0 && is_script_subtag(rest[0]) {
        canonical_region(acc + dash() + title_seq(rest[0]), rest.drop_first())
    } else {
        canonical_region(acc, rest)
    }
}

pub open spec fn canonical_segments(g: Seq<Seq<char>>) -> Option<Seq<char>> {
    if g.len() == 0 || !is_language_subtag(g[0]) {
        None
    } else {
        canonical_tail(lower_seq(g[0]), g.drop_first())
    }
}

/// What `s` parses to: the canonical text of the identifier it denotes, or
/// `None` where it denotes none.
pub open spec fn parse_spec(s: Seq<char>) -> Option<Seq<char>> {
    canonical_segments(segments(s))
}

// ---------------------------------------------------------------------------
// Lemmas
// ---------------------------------------------------------------------------

proof fn lemma_sep_index(s: Seq<char>)
    ensures
        sep_index(s) <= s.len(),
        forall|i: int| 0 <= i < sep_index(s) ==> !#[trigger] is_sep(s[i]),
        sep_index(s) < s.len() ==> is_sep(s[sep_index(s) as int]),
    decreases s.len(),
{
    if s.len() > 0 && !is_sep(s[0]) {
        lemma_sep_index(s.drop_first());
        assert forall|i: int| 0 <= i < sep_index(s) implies !#[trigger] is_sep(s[i]) by {
            if i > 0 {
                assert(s[i] == s.drop_first()[i - 1]);
            }
        }
    }
}

proof fn lemma_sep_index_unique(s: Seq<char>, j: int)
    requires
        0 <= j <= s.len(),
        forall|i: int| 0 <= i < j ==> !#[trigger] is_sep(s[i]),
        j < s.len() ==> is_sep(s[j]),
    ensures
        sep_index(s) == j,
{
    lemma_sep_index(s);
    let k = sep_index(s) as int;
    if k < j {
        assert(is_sep(s[k]));
    }
    if j < k {
        assert(!is_sep(s[j]));
    }
}

proof fn lemma_segments_single(a: Seq<char>)
    requires
        no_sep(a),
    ensures
        segments(a) == seq![a],
{
    lemma_sep_index_unique(a, a.len() as int);
}

proof fn lemma_segments_join(a: Seq<char>, b: Seq<char>)
    requires
        no_sep(a),
    ensures
        segments(a + dash() + b) == seq![a] + segments(b),
{
    let s = a + dash() + b;
    lemma_sep_index_unique(s, a.len() as int);
    assert(s.subrange(0, a.len() as int) =~= a);
    assert(s.subrange(a.len() as int + 1, s.len() as int) =~= b);
}

proof fn lemma_lower_seq(s: Seq<char>)
    requires
        all_alpha(s),
    ensures
        all_alpha(lower_seq(s)),
        no_sep(lower_seq(s)),
        lower_seq(lower_seq(s)) == lower_seq(s),
        lower_seq(s).len() == s.len(),
{
    assert forall|i: int| 0 <= i < s.len() implies !#[trigger] is_sep(lower_seq(s)[i]) by {
        assert(is_alpha(s[i]));
    }
    assert(lower_seq(lower_seq(s)) =~= lower_seq(s));
}

proof fn lemma_upper_seq(s: Seq<char>)
    requires
        all_alpha(s) || all_digit(s),
    ensures
        all_alpha(s) ==> all_alpha(upper_seq(s)),
        all_digit(s) ==> all_digit(upper_seq(s)),
        no_sep(upper_seq(s)),
        upper_seq(upper_seq(s)) == upper_seq(s),
        upper_seq(s).len() == s.len(),
{
    assert forall|i: int| 0 <= i < s.len() implies !#[trigger] is_sep(upper_seq(s)[i]) by {
        if all_alpha(s) {
            assert(is_alpha(s[i]));
        } else {
            assert(is_digit(s[i]));
        }
    }
    assert(upper_seq(upper_seq(s)) =~= upper_seq(s));
}

proof fn lemma_title_seq(s: Seq<char>)
    requires
        all_alpha(s),
    ensures
        all_alpha(title_seq(s)),
        no_sep(title_seq(s)),
        title_seq(title_seq(s)) == title_seq(s),
        title_seq(s).len() == s.len(),
{
    assert forall|i: int| 0 <= i < s.len() implies !#[trigger] is_sep(title_seq(s)[i]) by {
        assert(is_alpha(s[i]));
    }
    assert(title_seq(title_seq(s)) =~= title_seq(s));
}

/// Parsing is canonical: the text that a string parses to parses to itself,
/// so `parse(to_string(parse(s))) == parse(s)` for every `s` that parses.
pub proof fn lemma_parse_round_trip(s: Seq<char>)
    requires
        parse_spec(s) is Some,
    ensures
        parse_spec(parse_spec(s).unwrap()) == parse_spec(s),
{
    let g = segments(s);
    let lang = g[0];
    let rest = g.drop_first();
    lemma_lower_seq(lang);
    let l = lower_seq(lang);
    let has_script = rest.len() > 0 && is_script_subtag(rest[0]);
    let rest2 = if has_script { rest.drop_first() } else { rest };
    let has_region = rest2.len() == 1;
    if has_script {
        lemma_title_seq(rest[0]);
    }
    if has_region {
        lemma_upper_seq(rest2[0]);
    }
    let t = parse_spec(s).unwrap();
    if has_script {
        let sc = title_seq(rest[0]);
        if has_region {
            let r = upper_seq(rest2[0]);
            assert(t == l + dash() + sc + dash() + r);
            lemma_segments_single(r);
            lemma_segments_join(sc, r);
            assert(l + dash() + sc + dash() + r =~= l + dash() + (sc + dash() + r));
            lemma_segments_join(l, sc + dash() + r);
            assert(segments(t) =~= seq![l, sc, r]);
            assert(seq![l, sc, r].drop_first() =~= seq![sc, r]);
            assert(seq![sc, r].drop_first() =~= seq![r]);
        } else {
            assert(t == l + dash() + sc);
            lemma_segments_single(sc);
            lemma_segments_join(l, sc);
            assert(segments(t) =~= seq![l, sc]);
            assert(seq![l, sc].drop_first() =~= seq![sc]);
            assert(seq![sc].drop_first() =~= Seq::<Seq<char>>::empty());
        }
    } else {
        if has_region {
            let r = upper_seq(rest2[0]);
            assert(t == l + dash() + r);
            lemma_segments_single(r);
            lemma_segments_join(l, r);
            assert(segments(t) =~= seq![l, r]);
            assert(seq![l, r].drop_first() =~= seq![r]);
        } else {
            assert(t == l);
            lemma_segments_single(l);
            assert(seq![l].drop_first() =~= Seq::<Seq<char>>::empty());
        }
    }
}


// ---------------------------------------------------------------------------
// Executable helpers
// ---------------------------------------------------------------------------

fn is_sep_char(c: char) -> (r: bool)
    ensures
        r == is_sep(c),
{
    c == '-' || c == '_'
}

fn to_lower(c: char) -> (r: char)
    ensures
        r == lower(c),
{
    if 'A' <= c && c <= 'Z' {
        ((c as u8) + 32) as char
    } else {
        c
    }
}

fn to_upper(c: char) -> (r: char)
    ensures
        r == upper(c),
{
    if 'a' <= c && c <= 'z' {
        ((c as u8) - 32) as char
    } else {
        c
    }
}

/// The characters of `s`, one by one.
pub(crate) fn chars_of(s: &str) -> (v: Vec<char>)
    ensures
        v@ == s@,
{
    let n = s.unicode_len();
    let mut v: Vec<char> = Vec::new();
    let mut i: usize = 0;
    while i < n
        invariant
            n == s@.len(),
            i <= n,
            v@ == s@.subrange(0, i as int),
        decreases n - i,
    {
        v.push(s.get_char(i));
        i = i + 1;
        assert(v@ =~= s@.subrange(0, i as int));
    }
    assert(v@ =~= s@);
    v
}

/// Position of the first separator at or after `start`, or the length.
fn find_sep(v: &Vec<char>, start: usize) -> (j: usize)
    requires
        start <= v@.len(),
    ensures
        start <= j <= v@.len(),
        j - start == sep_index(v@.subrange(start as int, v@.len() as int)),
{
    let mut j = start;
    while j < v.len() && !is_sep_char(v[j])
        invariant
            start <= j <= v@.len(),
            forall|i: int| start <= i < j ==> !#[trigger] is_sep(v@[i]),
        decreases v@.len() - j,
    {
        j = j + 1;
    }
    let ghost t = v@.subrange(start as int, v@.len() as int);
    proof {
        assert forall|i: int| 0 <= i < j - start implies !#[trigger] is_sep(t[i]) by {
            assert(t[i] == v@[start + i]);
        }
        lemma_sep_index_unique(t, j - start);
    }
    j
}

proof fn lemma_segments_at(s: Seq<char>, start: int, j: int)
    requires
        0 <= start <= s.len(),
        j - start == sep_index(s.subrange(start, s.len() as int)),
    ensures
        start <= j <= s.len(),
        j == s.len() ==> segments(s.subrange(start, s.len() as int)) == seq![
            s.subrange(start, s.len() as int),
        ],
        j < s.len() ==> segments(s.subrange(start, s.len() as int)) == seq![s.subrange(start, j)]
            + segments(s.subrange(j + 1, s.len() as int)),
{
    let t = s.subrange(start, s.len() as int);
    lemma_sep_index(t);
    if j < s.len() {
        assert(t.subrange(0, j - start) =~= s.subrange(start, j));
        assert(t.subrange(j - start + 1, t.len() as int) =~= s.subrange(j + 1, s.len() as int));
    }
}

fn all_alpha_in(v: &Vec<char>, from: usize, to: usize) -> (r: bool)
    requires
        from <= to <= v@.len(),
    ensures
        r == all_alpha(v@.subrange(from as int, to as int)),
{
    let mut i = from;
    while i < to
        invariant
            from <= i <= to <= v@.len(),
            forall|k: int| from <= k < i ==> #[trigger] is_alpha(v@[k]),
        decreases to - i,
    {
        let c = v[i];
        if !(('a' <= c && c <= 'z') || ('A' <= c && c <= 'Z')) {
            assert(!is_alpha(v@.subrange(from as int, to as int)[i - from]));
            return false;
        }
        i = i + 1;
    }
    assert forall|k: int| 0 <= k < to - from implies #[trigger] is_alpha(
        v@.subrange(from as int, to as int)[k],
    ) by {
        assert(is_alpha(v@[from + k]));
    }
    true
}

fn all_digit_in(v: &Vec<char>, from: usize, to: usize) -> (r: bool)
    requires
        from <= to <= v@.len(),
    ensures
        r == all_digit(v@.subrange(from as int, to as int)),
{
    let mut i = from;
    while i < to
        invariant
            from <= i <= to <= v@.len(),
            forall|k: int| from <= k < i ==> #[trigger] is_digit(v@[k]),
        decreases to - i,
    {
        let c = v[i];
        if !('0' <= c && c <= '9') {
            assert(!is_digit(v@.subrange(from as int, to as int)[i - from]));
            return false;
        }
        i = i + 1;
    }
    assert forall|k: int| 0 <= k < to - from implies #[trigger] is_digit(
        v@.subrange(from as int, to as int)[k],
    ) by {
        assert(is_digit(v@[from + k]));
    }
    true
}

fn is_language_in(v: &Vec<char>, from: usize, to: usize) -> (r: bool)
    requires
        from <= to <= v@.len(),
    ensures
        r == is_language_subtag(v@.subrange(from as int, to as int)),
{
    let n = to - from;
    ((2 <= n && n <= 3) || (5 <= n && n <= 8)) && all_alpha_in(v, from, to)
}

fn is_script_in(v: &Vec<char>, from: usize, to: usize) -> (r: bool)
    requires
        from <= to <= v@.len(),
    ensures
        r == is_script_subtag(v@.subrange(from as int, to as int)),
{
    to - from == 4 && all_alpha_in(v, from, to)
}

fn is_region_in(v: &Vec<char>, from: usize, to: usize) -> (r: bool)
    requires
        from <= to <= v@.len(),
    ensures
        r == is_region_subtag(v@.subrange(from as int, to as int)),
{
    (to - from == 2 && all_alpha_in(v, from, to)) || (to - from == 3 && all_digit_in(v, from, to))
}

/// Which case a pushed subtag takes.
enum Case {
    Lower,
    Upper,
    Title,
}

spec fn cased(case: Case, s: Seq<char>) -> Seq<char> {
    match case {
        Case::Lower => lower_seq(s),
        Case::Upper => upper_seq(s),
        Case::Title => title_seq(s),
    }
}

fn push_cased(out: &mut String, v: &Vec<char>, from: usize, to: usize, case: Case)
    requires
        from <= to <= v@.len(),
    ensures
        final(out)@ == old(out)@ + cased(case, v@.subrange(from as int, to as int)),
{
    let ghost start = out@;
    let mut i = from;
    while i < to
        invariant
            from <= i <= to <= v@.len(),
            out@ == start + cased(case, v@.subrange(from as int, i as int)),
        decreases to - i,
    {
        let c = v[i];
        let d = match case {
            Case::Lower => to_lower(c),
            Case::Upper => to_upper(c),
            Case::Title => if i == from {
                to_upper(c)
            } else {
                to_lower(c)
            },
        };
        push_char(out, d);
        i = i + 1;
        assert(out@ =~= start + cased(case, v@.subrange(from as int, i as int)));
    }
}

// ---------------------------------------------------------------------------
// The identifier
// ---------------------------------------------------------------------------

/// A text that is the canonical form of an identifier.
pub open spec fn is_canonical(t: Seq<char>) -> bool {
    parse_spec(t) == Some(t)
}

/// A language identifier, held in its canonical text form.
#[derive(Debug)]
pub struct LangId {
    tag: String,
}

impl View for LangId {
    type V = Seq<char>;

    closed spec fn view(&self) -> Seq<char> {
        self.tag@
    }
}

impl LangId {
    #[verifier::type_invariant]
    closed spec fn inv(&self) -> bool {
        is_canonical(self.tag@)
    }

    /// Parses `s`; subtags may be separated by `-` or `_` and written in any
    /// case.
    pub fn parse(s: &str) -> (r: Option<LangId>)
        ensures
            match r {
                Some(l) => parse_spec(s@) == Some(l@) && is_canonical(l@),
                None => parse_spec(s@) is None,
            },
    {
        let v = chars_of(s);
        let n = v.len();
        let ghost sv = v@;
        assert(sv.subrange(0, n as int) =~= sv);
        let j0 = find_sep(&v, 0);
        proof {
            lemma_segments_at(sv, 0, j0 as int);
        }
        let ghost g = segments(sv);
        if !is_language_in(&v, 0, j0) {
            return None;
        }
        let mut out = String::new();
        push_cased(&mut out, &v, 0, j0, Case::Lower);
        let ghost acc0 = out@;
        if j0 == n {
            assert(g.drop_first() =~= Seq::<Seq<char>>::empty());
            proof {
                lemma_parse_round_trip(sv);
            }
            return Some(LangId { tag: out });
        }
        let s1 = j0 + 1;
        let j1 = find_sep(&v, s1);
        proof {
            lemma_segments_at(sv, s1 as int, j1 as int);
        }
        let ghost rest = g.drop_first();
        assert(rest == segments(sv.subrange(s1 as int, n as int)));
        let ghost r1 = rest.drop_first();
        assert(rest[0] == sv.subrange(s1 as int, j1 as int));
        if is_script_in(&v, s1, j1) {
            push_char(&mut out, '-');
            push_cased(&mut out, &v, s1, j1, Case::Title);
            let ghost acc1 = out@;
            assert(acc1 =~= acc0 + dash() + title_seq(rest[0]));
            if j1 == n {
                assert(r1 =~= Seq::<Seq<char>>::empty());
                proof {
                    lemma_parse_round_trip(sv);
                }
                return Some(LangId { tag: out });
            }
            let s2 = j1 + 1;
            let j2 = find_sep(&v, s2);
            proof {
                lemma_segments_at(sv, s2 as int, j2 as int);
            }
            assert(r1 == segments(sv.subrange(s2 as int, n as int)));
            assert(r1[0] == sv.subrange(s2 as int, j2 as int));
            if j2 == n && is_region_in(&v, s2, j2) {
                push_char(&mut out, '-');
                push_cased(&mut out, &v, s2, j2, Case::Upper);
                assert(out@ =~= acc1 + dash() + upper_seq(r1[0]));
                assert(r1.len() == 1);
                proof {
                    lemma_parse_round_trip(sv);
                }
                Some(LangId { tag: out })
            } else {
                None
            }
        } else {
            if j1 == n && is_region_in(&v, s1, j1) {
                push_char(&mut out, '-');
                push_cased(&mut out, &v, s1, j1, Case::Upper);
                assert(out@ =~= acc0 + dash() + upper_seq(rest[0]));
                assert(rest.len() == 1);
                proof {
                    lemma_parse_round_trip(sv);
                }
                Some(LangId { tag: out })
            } else {
                None
            }
        }
    }

    /// The canonical text.
    pub fn as_str(&self) -> (r: &str)
        ensures
            r@ == self@,
            is_canonical(r@),
    {
        proof {
            use_type_invariant(self);
        }
        self.tag.as_str()
    }

    /// The canonical text, as an owned string.
    pub fn to_string(&self) -> (r: String)
        ensures
            r@ == self@,
            is_canonical(r@),
    {
        proof {
            use_type_invariant(self);
        }
        self.tag.clone()
    }

    /// A copy of this identifier.
    pub fn duplicate(&self) -> (r: LangId)
        ensures
            r@ == self@,
    {
        proof {
            use_type_invariant(self);
        }
        LangId { tag: self.tag.clone() }
    }
}

impl PartialEq for LangId {
    fn eq(&self, other: &LangId) -> (r: bool) {
        self.tag == other.tag
    }
}

impl vstd::std_specs::cmp::PartialEqSpecImpl for LangId {
    open spec fn obeys_eq_spec() -> bool {
        true
    }

    open spec fn eq_spec(&self, other: &LangId) -> bool {
        self@ == other@
    }
}

impl Eq for LangId {
}

impl Clone for LangId {
    fn clone(&self) -> (r: LangId)
        ensures
            r@ == self@,
    {
        self.duplicate()
    }
}

} // verus!
