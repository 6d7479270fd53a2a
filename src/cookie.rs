//! The cookie backend's text: writing one cookie, and finding one in the
//! document's cookie string (`a=1; lang=fr-FR; b=2`).
use vstd::prelude::*;

verus! {

/// The text a cookie write assigns: `name=value`, then `; ` and the
/// attributes where there are any.
pub open spec fn cookie_text(name: Seq<char>, value: Seq<char>, attributes: Seq<char>) -> Seq<
    char,
> {
    let base = name + "="@ + value;
    if attributes.len() == 0 {
        base
    } else {
        base + "; "@ + attributes
    }
}

/// The cookie assignment that stores `value` under `name`.
pub fn cookie_assignment(name: &str, value: &str, attributes: &str) -> (r: String)
    ensures
        r@ == cookie_text(name@, value@, attributes@),
{
    proof {
        reveal_strlit("=");
        reveal_strlit("; ");
    }
    let mut out: String = name.to_owned();
    out.append("=");
    out.append(value);
    if attributes.unicode_len() > 0 {
        out.append("; ");
        out.append(attributes);
    }
    out
}

/// Index of the first `;` in `s`, or its length when there is none.
pub open spec fn semi_index(s: Seq<char>) -> nat
    decreases s.len(),
{
    if s.len() == 0 {
        0
    } else if s[0] == ';' {
        0
    } else {
        1 + semi_index(s.drop_first())
    }
}

/// Number of spaces at the start of `s`.
pub open spec fn lead_spaces(s: Seq<char>) -> nat
    decreases s.len(),
{
    if s.len() == 0 {
        0
    } else if s[0] != ' ' {
        0
    } else {
        1 + lead_spaces(s.drop_first())
    }
}

/// The value of `entry` (spaces at its start dropped) where it is
/// `name=value`.
pub open spec fn entry_value(entry: Seq<char>, name: Seq<char>) -> Option<Seq<char>> {
    let e = entry.subrange(lead_spaces(entry) as int, entry.len() as int);
    if e.len() > name.len() && e.subrange(0, name.len() as int) == name && e[name.len() as int] == '=' {
        Some(e.subrange(name.len() as int + 1, e.len() as int))
    } else {
        None
    }
}

/// The value of the first entry of the cookie string `c` named `name`.
pub open spec fn cookie_lookup(c: Seq<char>, name: Seq<char>) -> Option<Seq<char>>
    decreases c.len(),
{
    let j = semi_index(c) as int;
    if j >= c.len() {
        entry_value(c, name)
    } else if entry_value(c.subrange(0, j), name) is Some {
        entry_value(c.subrange(0, j), name)
    } else {
        cookie_lookup(c.subrange(j + 1, c.len() as int), name)
    }
}

proof fn lemma_semi_index(s: Seq<char>, j: int)
    requires
        0 <= j <= s.len(),
        forall|i: int| 0 <= i < j ==> s[i] != ';',
        j < s.len() ==> s[j] == ';',
    ensures
        semi_index(s) == j,
    decreases s.len(),
{
    if s.len() > 0 && s[0] != ';' {
        assert forall|i: int| 0 <= i < j - 1 implies s.drop_first()[i] != ';' by {
            assert(s.drop_first()[i] == s[i + 1]);
        }
        lemma_semi_index(s.drop_first(), j - 1);
    }
}

proof fn lemma_lead_spaces(s: Seq<char>, j: int)
    requires
        0 <= j <= s.len(),
        forall|i: int| 0 <= i < j ==> s[i] == ' ',
        j < s.len() ==> s[j] != ' ',
    ensures
        lead_spaces(s) == j,
    decreases s.len(),
{
    if s.len() > 0 && s[0] == ' ' {
        assert forall|i: int| 0 <= i < j - 1 implies s.drop_first()[i] == ' ' by {
            assert(s.drop_first()[i] == s[i + 1]);
        }
        lemma_lead_spaces(s.drop_first(), j - 1);
    }
}

/// The value of `name=value` at `from..to` of `c`, spaces at its start
/// dropped, or `None`.
fn entry_value_in(c: &Vec<char>, from: usize, to: usize, name: &Vec<char>) -> (r: Option<String>)
    requires
        from <= to <= c@.len(),
    ensures
        match r {
            Some(v) => entry_value(c@.subrange(from as int, to as int), name@) == Some(v@),
            None => entry_value(c@.subrange(from as int, to as int), name@) is None,
        },
{
    let ghost entry = c@.subrange(from as int, to as int);
    let mut s = from;
    while s < to && c[s] == ' '
        invariant
            from <= s <= to <= c@.len(),
            forall|i: int| from <= i < s ==> c@[i] == ' ',
        decreases to - s,
    {
        s = s + 1;
    }
    proof {
        lemma_lead_spaces(entry, s - from);
    }
    let ghost e = entry.subrange(s - from, entry.len() as int);
    assert(e =~= c@.subrange(s as int, to as int));
    let n = name.len();
    if to - s <= n {
        return None;
    }
    let mut k: usize = 0;
    while k < n
        invariant
            k <= n == name@.len(),
            s + n < to <= c@.len(),
            forall|i: int| 0 <= i < k ==> c@[s + i] == name@[i],
            e == c@.subrange(s as int, to as int),
            entry == c@.subrange(from as int, to as int),
            lead_spaces(entry) == s - from,
            e == entry.subrange(s - from, entry.len() as int),
        decreases n - k,
    {
        if c[s + k] != name[k] {
            assert(e.subrange(0, n as int)[k as int] != name@[k as int]);
            assert(e.subrange(0, n as int) != name@);
            return None;
        }
        k = k + 1;
    }
    assert(e.subrange(0, n as int) =~= name@);
    if c[s + n] != '=' {
        return None;
    }
    let mut v = String::new();
    let mut p = s + n + 1;
    while p < to
        invariant
            s + n + 1 <= p <= to <= c@.len(),
            v@ == c@.subrange(s + n + 1, p as int),
        decreases to - p,
    {
        crate::text::push_char(&mut v, c[p]);
        p = p + 1;
        assert(v@ =~= c@.subrange(s + n + 1, p as int));
    }
    assert(v@ =~= e.subrange(n as int + 1, e.len() as int));
    Some(v)
}

/// The value of the first cookie named `name` in the document's cookie
/// string `cookies`.
pub fn cookie_value(cookies: &str, name: &str) -> (r: Option<String>)
    ensures
        match r {
            Some(v) => cookie_lookup(cookies@, name@) == Some(v@),
            None => cookie_lookup(cookies@, name@) is None,
        },
{
    let c = crate::langid::chars_of(cookies);
    let nm = crate::langid::chars_of(name);
    let len = c.len();
    let mut start: usize = 0;
    assert(c@.subrange(0, len as int) =~= c@);
    while start <= len
        invariant
            start <= len,
            len == c@.len(),
            c@ == cookies@,
            nm@ == name@,
            start <= len ==> cookie_lookup(c@, nm@) == cookie_lookup(
                c@.subrange(start as int, len as int),
                nm@,
            ),
        decreases len + 1 - start,
    {
        let ghost rest = c@.subrange(start as int, len as int);
        let mut j = start;
        while j < len && c[j] != ';'
            invariant
                start <= j <= len == c@.len(),
                forall|i: int| start <= i < j ==> c@[i] != ';',
            decreases len - j,
        {
            j = j + 1;
        }
        proof {
            lemma_semi_index(rest, j - start);
            assert(rest.subrange(0, j - start) =~= c@.subrange(start as int, j as int));
        }
        let found = entry_value_in(&c, start, j, &nm);
        if found.is_some() {
            return found;
        }
        if j == len {
            assert(rest =~= c@.subrange(start as int, j as int));
            return None;
        }
        assert(rest.subrange(j - start + 1, rest.len() as int) =~= c@.subrange(j + 1, len as int));
        start = j + 1;
    }
    None
}

pub open spec fn no_semicolon(s: Seq<char>) -> bool {
    forall|i: int| 0 <= i < s.len() ==> s[i] != ';'
}

/// A cookie written by `cookie_assignment` reads back as the value written:
/// the name's first entry in the text is the one just assigned, where
/// neither name nor value holds a `;` and the name does not start with a
/// space.
pub proof fn lemma_cookie_round_trip(name: Seq<char>, value: Seq<char>, attributes: Seq<char>)
    requires
        name.len() > 0,
        name[0] != ' ',
        no_semicolon(name),
        no_semicolon(value),
    ensures
        cookie_lookup(cookie_text(name, value, attributes), name) == Some(value),
{
    reveal_strlit("=");
    reveal_strlit("; ");
    let c = cookie_text(name, value, attributes);
    let base = name + "="@ + value;
    let n = base.len() as int;
    assert(c.subrange(0, n) =~= base);
    assert forall|i: int| 0 <= i < n implies c[i] != ';' by {
        if i < name.len() {
            assert(c[i] == name[i]);
        } else if i > name.len() {
            assert(c[i] == value[i - name.len() - 1]);
        }
    }
    lemma_semi_index(c, n);
    lemma_lead_spaces(base, 0);
    assert(base.subrange(0, base.len() as int) =~= base);
    assert(base.subrange(0, name.len() as int) =~= name);
    assert(base.subrange(name.len() as int + 1, base.len() as int) =~= value);
    if attributes.len() == 0 {
        assert(c =~= base);
    }
}

} // verus!
