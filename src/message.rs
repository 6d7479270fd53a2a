//! Localized messages and the reactive handle that keeps one up to date.
//!
//! A `Message` is what the localizer resolved for one message id under one
//! language: its id, its value, and its attributes, each of which memoizes
//! the values it was resolved to, per argument set. A `ReactiveMessage` holds
//! the message of the language it was last computed for and says when it is
//! stale; the host's localizer does the resolving and hands the outcome back.
use vstd::prelude::*;

use crate::langid::LangId;
use crate::text::same_text;

verus! {

/// The arguments of a query: names and values, in order.
pub open spec fn args_view(a: Seq<(String, String)>) -> Seq<(Seq<char>, Seq<char>)> {
    Seq::new(a.len(), |i: int| (a[i].0@, a[i].1@))
}

/// An attribute: its name, and the values it resolved to, per argument set.
pub type AttrView = (Seq<char>, Seq<(Seq<(Seq<char>, Seq<char>)>, Seq<char>)>);

pub open spec fn has_attr(a: Seq<AttrView>, name: Seq<char>) -> bool {
    exists|i: int| 0 <= i < a.len() && #[trigger] a[i].0 == name
}

pub open spec fn attr_pos(a: Seq<AttrView>, name: Seq<char>) -> int {
    choose|i: int| 0 <= i < a.len() && #[trigger] a[i].0 == name
}

pub open spec fn has_memo(m: Seq<(Seq<(Seq<char>, Seq<char>)>, Seq<char>)>, args: Seq<(Seq<char>, Seq<char>)>) -> bool {
    exists|k: int| 0 <= k < m.len() && #[trigger] m[k].0 == args
}

pub open spec fn memo_pos(m: Seq<(Seq<(Seq<char>, Seq<char>)>, Seq<char>)>, args: Seq<(Seq<char>, Seq<char>)>) -> int {
    choose|k: int| 0 <= k < m.len() && #[trigger] m[k].0 == args
}

/// Attribute names are unique, and so is each attribute's memo key.
pub open spec fn attrs_wf(a: Seq<AttrView>) -> bool {
    &&& forall|i: int, j: int| 0 <= i < j < a.len() ==> a[i].0 != a[j].0
    &&& forall|i: int, k: int, l: int|
        0 <= i < a.len() && 0 <= k < l < a[i].1.len() ==> #[trigger] a[i].1[k].0 != #[trigger] a[i].1[l].0
}

/// What reading attribute `name` with `args` gives without a query: the
/// name itself where the message has no such attribute, the memoized value
/// where there is one, and `None` where the localizer must be asked.
pub open spec fn lookup_spec(a: Seq<AttrView>, name: Seq<char>, args: Seq<(Seq<char>, Seq<char>)>) -> Option<Seq<char>> {
    if has_attr(a, name) {
        let m = a[attr_pos(a, name)].1;
        if has_memo(m, args) {
            Some(m[memo_pos(m, args)].1)
        } else {
            None
        }
    } else {
        Some(name)
    }
}

/// The attributes after `value` was resolved for `name` with `args`.
pub open spec fn recorded(a: Seq<AttrView>, name: Seq<char>, args: Seq<(Seq<char>, Seq<char>)>, value: Seq<char>) -> Seq<AttrView> {
    if has_attr(a, name) {
        let i = attr_pos(a, name);
        if has_memo(a[i].1, args) {
            a
        } else {
            a.update(i, (a[i].0, a[i].1.push((args, value))))
        }
    } else {
        a
    }
}

/// Memoization within one generation: once an attribute was resolved for an
/// argument set, reading it again with those arguments asks nothing of the
/// localizer and gives the recorded value.
pub proof fn lemma_memoized(a: Seq<AttrView>, name: Seq<char>, args: Seq<(Seq<char>, Seq<char>)>, value: Seq<char>)
    requires
        attrs_wf(a),
        has_attr(a, name),
        lookup_spec(a, name, args) is None,
    ensures
        attrs_wf(recorded(a, name, args, value)),
        lookup_spec(recorded(a, name, args, value), name, args) == Some(value),
{
    let i = attr_pos(a, name);
    let r = recorded(a, name, args, value);
    let m = r[i].1;
    assert(m.last().0 == args);
    assert(has_memo(m, args));
    assert(has_attr(r, name)) by {
        assert(r[i].0 == name);
    }
    assert(attr_pos(r, name) == i);
    assert(memo_pos(m, args) == m.len() - 1);
}

/// An attribute that the message lacks reads as its own name, whatever the
/// arguments.
pub proof fn lemma_missing_attribute(a: Seq<AttrView>, name: Seq<char>, args: Seq<(Seq<char>, Seq<char>)>)
    requires
        !has_attr(a, name),
    ensures
        lookup_spec(a, name, args) == Some(name),
{
}

/// A new generation starts with nothing memoized: every attribute that the
/// new message has must be resolved again.
pub proof fn lemma_new_generation(a: Seq<AttrView>, name: Seq<char>, args: Seq<(Seq<char>, Seq<char>)>)
    requires
        forall|i: int| 0 <= i < a.len() ==> (#[trigger] a[i]).1.len() == 0,
        has_attr(a, name),
    ensures
        lookup_spec(a, name, args) is None,
{
    let i = attr_pos(a, name);
    assert(a[i].1.len() == 0);
}

/// The attributes with nothing memoized.
pub open spec fn cleared(a: Seq<AttrView>) -> Seq<AttrView> {
    Seq::new(a.len(), |i: int| (a[i].0, Seq::empty()))
}

/// What reading an attribute gave.
#[derive(Debug, Clone)]
pub enum AttrLookup {
    /// The value to show: memoized, or the attribute's name where the message
    /// has no such attribute.
    Resolved(String),
    /// The localizer must resolve the attribute; hand its outcome to
    /// `record_attr`.
    NeedsQuery,
}

pub open spec fn lookup_view(r: AttrLookup) -> Option<Seq<char>> {
    match r {
        AttrLookup::Resolved(s) => Some(s@),
        AttrLookup::NeedsQuery => None,
    }
}

/// Whether one of the first `upto` names is `n`.
pub open spec fn names_include(names: Seq<String>, upto: int, n: Seq<char>) -> bool {
    exists|k: int| 0 <= k < upto && #[trigger] names[k]@ == n
}

spec fn caches_include(c: Seq<AttrCache>, n: Seq<char>) -> bool {
    exists|b: int| 0 <= b < c.len() && #[trigger] c[b].name@ == n
}

struct AttrCache {
    name: String,
    memo: Vec<(Vec<(String, String)>, String)>,
}

spec fn attr_cache_view(c: AttrCache) -> AttrView {
    (c.name@, Seq::new(c.memo@.len(), |k: int| (args_view(c.memo@[k].0@), c.memo@[k].1@)))
}

spec fn caches_view(c: Seq<AttrCache>) -> Seq<AttrView> {
    Seq::new(c.len(), |i: int| attr_cache_view(c[i]))
}

fn copy_args(a: &Vec<(String, String)>) -> (r: Vec<(String, String)>)
    ensures
        args_view(r@) == args_view(a@),
{
    let mut r: Vec<(String, String)> = Vec::new();
    let mut i: usize = 0;
    while i < a.len()
        invariant
            i <= a@.len(),
            r@.len() == i,
            forall|k: int| 0 <= k < i ==> #[trigger] r@[k].0@ == a@[k].0@ && r@[k].1@ == a@[k].1@,
        decreases a@.len() - i,
    {
        r.push((a[i].0.clone(), a[i].1.clone()));
        i = i + 1;
    }
    assert(args_view(r@) =~= args_view(a@));
    r
}

fn args_equal(a: &Vec<(String, String)>, b: &Vec<(String, String)>) -> (r: bool)
    ensures
        r == (args_view(a@) == args_view(b@)),
{
    if a.len() != b.len() {
        assert(args_view(a@).len() != args_view(b@).len());
        return false;
    }
    let mut i: usize = 0;
    while i < a.len()
        invariant
            i <= a@.len(),
            a@.len() == b@.len(),
            forall|k: int| 0 <= k < i ==> #[trigger] args_view(a@)[k] == args_view(b@)[k],
        decreases a@.len() - i,
    {
        if !(a[i].0 == b[i].0 && a[i].1 == b[i].1) {
            assert(args_view(a@)[i as int] != args_view(b@)[i as int]);
            return false;
        }
        i = i + 1;
    }
    assert(args_view(a@) =~= args_view(b@));
    true
}

/// A message resolved for one message id under one language.
pub struct Message {
    id: String,
    value: String,
    attrs: Vec<AttrCache>,
}

impl Message {
    pub closed spec fn id_view(&self) -> Seq<char> {
        self.id@
    }

    pub closed spec fn value_view(&self) -> Seq<char> {
        self.value@
    }

    pub closed spec fn attrs_view(&self) -> Seq<AttrView> {
        caches_view(self.attrs@)
    }

    #[verifier::type_invariant]
    closed spec fn inv(&self) -> bool {
        attrs_wf(self.attrs_view())
    }

    /// A message with the given id, value and attributes, nothing memoized;
    /// a repeated attribute name counts once.
    pub fn new(id: String, value: String, attr_names: Vec<String>) -> (r: Message)
        ensures
            r.id_view() == id@,
            r.value_view() == value@,
            forall|i: int| 0 <= i < r.attrs_view().len() ==> (#[trigger] r.attrs_view()[i]).1.len() == 0,
            forall|n: Seq<char>| #[trigger] has_attr(r.attrs_view(), n) <==> names_include(attr_names@, attr_names@.len() as int, n),
            attrs_wf(r.attrs_view()),
    {
        let mut attrs: Vec<AttrCache> = Vec::new();
        let mut j: usize = 0;
        while j < attr_names.len()
            invariant
                j <= attr_names@.len(),
                forall|a: int, b: int| 0 <= a < b < attrs@.len() ==> attrs@[a].name@ != attrs@[b].name@,
                forall|a: int| 0 <= a < attrs@.len() ==> (#[trigger] attrs@[a]).memo@.len() == 0,
                forall|n: Seq<char>| #[trigger] caches_include(attrs@, n) <==> names_include(attr_names@, j as int, n),
            decreases attr_names@.len() - j,
        {
            let name = &attr_names[j];
            let mut seen = false;
            let mut a: usize = 0;
            while a < attrs.len()
                invariant
                    a <= attrs@.len(),
                    seen <==> exists|b: int| 0 <= b < a && #[trigger] attrs@[b].name@ == name@,
                decreases attrs@.len() - a,
            {
                if attrs[a].name == *name {
                    seen = true;
                }
                a = a + 1;
            }
            let ghost before = attrs@;
            if !seen {
                attrs.push(AttrCache { name: name.clone(), memo: Vec::new() });
            }
            assert forall|n: Seq<char>| #[trigger] caches_include(attrs@, n) <==> names_include(attr_names@, j + 1, n) by {
                if names_include(attr_names@, j + 1, n) {
                    let k = choose|k: int| 0 <= k < j + 1 && #[trigger] attr_names@[k]@ == n;
                    if k < j {
                        assert(names_include(attr_names@, j as int, n));
                        assert(caches_include(before, n));
                        let b = choose|b: int| 0 <= b < before.len() && #[trigger] before[b].name@ == n;
                        assert(attrs@[b].name@ == n);
                    } else if !seen {
                        assert(attrs@[before.len() as int].name@ == n);
                    }
                }
                if caches_include(attrs@, n) {
                    let b = choose|b: int| 0 <= b < attrs@.len() && #[trigger] attrs@[b].name@ == n;
                    if b < before.len() {
                        assert(before[b].name@ == n);
                        assert(caches_include(before, n));
                        let k = choose|k: int| 0 <= k < j && #[trigger] attr_names@[k]@ == n;
                        assert(attr_names@[k]@ == n);
                    } else {
                        assert(attr_names@[j as int]@ == n);
                    }
                }
            }
            j = j + 1;
        }
        let r = Message { id, value, attrs };
        proof {
            use_type_invariant(&r);
        }
        assert forall|n: Seq<char>| #[trigger] has_attr(r.attrs_view(), n) <==> caches_include(attrs@, n) by {
            if has_attr(r.attrs_view(), n) {
                let i = choose|i: int| 0 <= i < r.attrs_view().len() && #[trigger] r.attrs_view()[i].0 == n;
                assert(attrs@[i].name@ == n);
            }
            if caches_include(attrs@, n) {
                let a = choose|a: int| 0 <= a < attrs@.len() && #[trigger] attrs@[a].name@ == n;
                assert(r.attrs_view()[a].0 == n);
            }
        }
        r
    }

    /// The stand-in for a message that could not be resolved: id and value
    /// are the message id, and there are no attributes.
    pub fn placeholder(message_id: &str) -> (r: Message)
        ensures
            r.id_view() == message_id@,
            r.value_view() == message_id@,
            r.attrs_view().len() == 0,
            attrs_wf(r.attrs_view()),
    {
        let r = Message { id: message_id.to_owned(), value: message_id.to_owned(), attrs: Vec::new() };
        assert(r.attrs_view().len() == 0);
        r
    }

    /// The same message with nothing memoized.
    fn forget_memos(self) -> (r: Message)
        ensures
            r.id_view() == self.id_view(),
            r.value_view() == self.value_view(),
            r.attrs_view() == cleared(self.attrs_view()),
    {
        proof {
            use_type_invariant(&self);
        }
        let Message { id, value, attrs } = self;
        let ghost a = caches_view(attrs@);
        let mut fresh: Vec<AttrCache> = Vec::new();
        let mut i: usize = 0;
        while i < attrs.len()
            invariant
                i <= attrs@.len(),
                a == caches_view(attrs@),
                fresh@.len() == i,
                forall|k: int| 0 <= k < i ==> #[trigger] caches_view(fresh@)[k] == cleared(a)[k],
            decreases attrs@.len() - i,
        {
            let ghost before = fresh@;
            fresh.push(AttrCache { name: attrs[i].name.clone(), memo: Vec::new() });
            proof {
                assert(caches_view(fresh@)[i as int].1 =~= Seq::<(Seq<(Seq<char>, Seq<char>)>, Seq<char>)>::empty());
                assert forall|k: int| 0 <= k < i + 1 implies #[trigger] caches_view(fresh@)[k] == cleared(a)[k] by {
                    if k < i {
                        assert(fresh@[k] == before[k]);
                        assert(caches_view(before)[k] == cleared(a)[k]);
                    }
                }
            }
            i = i + 1;
        }
        assert(caches_view(fresh@) =~= cleared(a));
        Message { id, value, attrs: fresh }
    }

    pub fn id(&self) -> (r: String)
        ensures
            r@ == self.id_view(),
    {
        self.id.clone()
    }

    pub fn value(&self) -> (r: String)
        ensures
            r@ == self.value_view(),
    {
        self.value.clone()
    }

    fn find_attr(&self, name: &str) -> (r: Option<usize>)
        ensures
            match r {
                Some(i) => i < self.attrs_view().len() && self.attrs_view()[i as int].0 == name@,
                None => !has_attr(self.attrs_view(), name@),
            },
    {
        let mut i: usize = 0;
        while i < self.attrs.len()
            invariant
                i <= self.attrs@.len(),
                forall|k: int| 0 <= k < i ==> (#[trigger] self.attrs_view()[k]).0 != name@,
            decreases self.attrs@.len() - i,
        {
            if same_text(self.attrs[i].name.as_str(), name) {
                return Some(i);
            }
            i = i + 1;
        }
        None
    }

    fn find_memo(&self, i: usize, args: &Vec<(String, String)>) -> (r: Option<usize>)
        requires
            i < self.attrs_view().len(),
        ensures
            match r {
                Some(k) => k < self.attrs_view()[i as int].1.len() && self.attrs_view()[i as int].1[k as int].0
                    == args_view(args@),
                None => !has_memo(self.attrs_view()[i as int].1, args_view(args@)),
            },
    {
        let ghost m = self.attrs_view()[i as int].1;
        let memo = &self.attrs[i].memo;
        assert(forall|l: int| 0 <= l < m.len() ==> #[trigger] m[l] == (args_view(memo@[l].0@), memo@[l].1@));
        let mut k: usize = 0;
        while k < memo.len()
            invariant
                m == self.attrs_view()[i as int].1,
                k <= memo@.len(),
                memo@.len() == m.len(),
                memo == self.attrs@[i as int].memo,
                forall|l: int| 0 <= l < k ==> (#[trigger] m[l]).0 != args_view(args@),
                forall|l: int| 0 <= l < m.len() ==> #[trigger] m[l] == (args_view(memo@[l].0@), memo@[l].1@),
            decreases memo@.len() - k,
        {
            if args_equal(&memo[k].0, args) {
                return Some(k);
            }
            k = k + 1;
        }
        None
    }

    /// Reads attribute `name` with `args` without asking the localizer.
    pub fn lookup_attr(&self, name: &str, args: &Vec<(String, String)>) -> (r: AttrLookup)
        ensures
            lookup_view(r) == lookup_spec(self.attrs_view(), name@, args_view(args@)),
            attrs_wf(self.attrs_view()),
    {
        proof {
            use_type_invariant(self);
        }
        match self.find_attr(name) {
            None => AttrLookup::Resolved(name.to_owned()),
            Some(i) => {
                let ghost a = self.attrs_view();
                assert(attr_pos(a, name@) == i);
                match self.find_memo(i, args) {
                    None => AttrLookup::NeedsQuery,
                    Some(k) => {
                        assert(memo_pos(a[i as int].1, args_view(args@)) == k);
                        AttrLookup::Resolved(self.attrs[i].memo[k].1.clone())
                    },
                }
            },
        }
    }

    /// Takes the localizer's outcome for attribute `name` with `args` and
    /// returns what to show: the value, memoized for later reads, or the
    /// attribute's name where resolution failed (which is not memoized).
    pub fn record_attr(&mut self, name: &str, args: &Vec<(String, String)>, outcome: Option<String>) -> (r: String)
        ensures
            final(self).id_view() == old(self).id_view(),
            final(self).value_view() == old(self).value_view(),
            match outcome {
                Some(v) => r@ == v@ && final(self).attrs_view() == recorded(
                    old(self).attrs_view(),
                    name@,
                    args_view(args@),
                    v@,
                ),
                None => r@ == name@ && final(self).attrs_view() == old(self).attrs_view(),
            },
            attrs_wf(final(self).attrs_view()),
    {
        proof {
            use_type_invariant(&*self);
        }
        let v = match outcome {
            None => {
                return name.to_owned();
            },
            Some(v) => v,
        };
        let ghost a = self.attrs_view();
        match self.find_attr(name) {
            None => {},
            Some(i) => {
                assert(attr_pos(a, name@) == i);
                match self.find_memo(i, args) {
                    Some(_) => {},
                    None => {
                        let key = copy_args(args);
                        let mut taken = Message::placeholder("");
                        core::mem::swap(self, &mut taken);
                        let Message { id, value, mut attrs } = taken;
                        let ghost before = attrs@;
                        let mut cache = attrs.remove(i);
                        let ghost old_memo = cache.memo@;
                        cache.memo.push((key, v.clone()));
                        let ghost new_cache = cache;
                        attrs.insert(i, cache);
                        proof {
                            assert(attrs@ =~= before.update(i as int, new_cache));
                            assert(a =~= caches_view(before));
                            let b = caches_view(attrs@);
                            assert(b[i as int].1 =~= a[i as int].1.push((args_view(args@), v@)));
                            assert(b =~= a.update(
                                i as int,
                                (a[i as int].0, a[i as int].1.push((args_view(args@), v@))),
                            ));
                            assert forall|p: int, k: int, l: int|
                                0 <= p < b.len() && 0 <= k < l < b[p].1.len() implies #[trigger] b[p].1[k].0
                                != #[trigger] b[p].1[l].0 by {
                                if p == i && l == b[p].1.len() - 1 {
                                    assert(a[p].1[k].0 != args_view(args@));
                                }
                            }
                        }
                        *self = Message { id, value, attrs };
                    },
                }
            },
        }
        proof {
            use_type_invariant(&*self);
        }
        v
    }
}

/// The handle a view reads a localized message through.
///
/// It holds the message computed for the language it was last refreshed
/// for. A handle made from a query is stale until it is refreshed, and again
/// whenever the current language differs from that one; a precomputed handle
/// is never stale. A tracked read subscribes the reader, and a refresh then
/// reports that the readers must be notified.
pub struct ReactiveMessage {
    message_id: String,
    msg: Message,
    language: Option<LangId>,
    precomputed: bool,
    subscribed: bool,
}

impl ReactiveMessage {
    pub closed spec fn message_id_view(&self) -> Seq<char> {
        self.message_id@
    }

    pub closed spec fn message(&self) -> Message {
        self.msg
    }

    /// The language the message was last computed for.
    pub closed spec fn language_view(&self) -> Option<Seq<char>> {
        match self.language {
            Some(l) => Some(l@),
            None => None,
        }
    }

    pub closed spec fn is_precomputed(&self) -> bool {
        self.precomputed
    }

    pub closed spec fn is_subscribed(&self) -> bool {
        self.subscribed
    }

    /// Whether the message must be computed again for `current`.
    pub open spec fn stale_for(&self, current: Seq<char>) -> bool {
        !self.is_precomputed() && self.language_view() != Some(current)
    }

    /// A handle for `message_id`, stale until its first refresh; until then
    /// it reads as the placeholder.
    pub fn from_query(message_id: &str) -> (r: ReactiveMessage)
        ensures
            r.message_id_view() == message_id@,
            r.language_view() is None,
            !r.is_precomputed(),
            !r.is_subscribed(),
            r.message().id_view() == message_id@,
            r.message().value_view() == message_id@,
            r.message().attrs_view().len() == 0,
            attrs_wf(r.message().attrs_view()),
    {
        ReactiveMessage {
            message_id: message_id.to_owned(),
            msg: Message::placeholder(message_id),
            language: None,
            precomputed: false,
            subscribed: false,
        }
    }

    /// A handle that holds `msg` for good.
    pub fn from_precomputed(msg: Message) -> (r: ReactiveMessage)
        ensures
            r.message() == msg,
            attrs_wf(r.message().attrs_view()),
            r.message_id_view() == msg.id_view(),
            r.language_view() is None,
            r.is_precomputed(),
            !r.is_subscribed(),
    {
        proof {
            use_type_invariant(&msg);
        }
        let message_id = msg.id();
        ReactiveMessage { message_id, msg, language: None, precomputed: true, subscribed: false }
    }

    /// Whether the message must be computed again for `current`.
    pub fn needs_refresh(&self, current: &LangId) -> (r: bool)
        ensures
            r == self.stale_for(current@),
    {
        if self.precomputed {
            return false;
        }
        match &self.language {
            None => true,
            Some(l) => !same_text(l.as_str(), current.as_str()),
        }
    }

    /// Takes what the localizer resolved for `language`: the message, or
    /// `None` where it failed, which stores the placeholder (a caller with an
    /// error handler passes the message the handler made). Starts a new
    /// generation: whatever the message handed in had memoized is dropped.
    /// Returns whether subscribed readers must be notified. A precomputed
    /// handle is left as it is.
    pub fn refresh(&mut self, language: LangId, outcome: Option<Message>) -> (notify: bool)
        ensures
            old(self).is_precomputed() ==> *final(self) == *old(self) && !notify,
            !old(self).is_precomputed() ==> {
                &&& final(self).language_view() == Some(language@)
                &&& notify == old(self).is_subscribed()
                &&& match outcome {
                    Some(m) => final(self).message().id_view() == m.id_view()
                        && final(self).message().value_view() == m.value_view()
                        && final(self).message().attrs_view() == cleared(m.attrs_view()),
                    None => final(self).message().id_view() == old(self).message_id_view()
                        && final(self).message().value_view() == old(self).message_id_view()
                        && final(self).message().attrs_view().len() == 0,
                }
            },
            attrs_wf(final(self).message().attrs_view()),
            final(self).message_id_view() == old(self).message_id_view(),
            final(self).is_precomputed() == old(self).is_precomputed(),
            final(self).is_subscribed() == old(self).is_subscribed(),
    {
        if self.precomputed {
            proof {
                use_type_invariant(&self.msg);
            }
            return false;
        }
        self.msg = match outcome {
            Some(m) => m.forget_memos(),
            None => Message::placeholder(self.message_id.as_str()),
        };
        proof {
            use_type_invariant(&self.msg);
        }
        self.language = Some(language);
        self.subscribed
    }

    /// The message's id; a tracked read.
    pub fn id(&mut self) -> (r: String)
        ensures
            r@ == old(self).message().id_view(),
            final(self).is_subscribed(),
            final(self).message() == old(self).message(),
            final(self).message_id_view() == old(self).message_id_view(),
            final(self).language_view() == old(self).language_view(),
            final(self).is_precomputed() == old(self).is_precomputed(),
    {
        self.subscribed = true;
        self.msg.id()
    }

    /// The message's id, without subscribing.
    pub fn id_untracked(&self) -> (r: String)
        ensures
            r@ == self.message().id_view(),
    {
        self.msg.id()
    }

    /// The message's value; a tracked read.
    pub fn value(&mut self) -> (r: String)
        ensures
            r@ == old(self).message().value_view(),
            final(self).is_subscribed(),
            final(self).message() == old(self).message(),
            final(self).message_id_view() == old(self).message_id_view(),
            final(self).language_view() == old(self).language_view(),
            final(self).is_precomputed() == old(self).is_precomputed(),
    {
        self.subscribed = true;
        self.msg.value()
    }

    /// The message's value, without subscribing.
    pub fn value_untracked(&self) -> (r: String)
        ensures
            r@ == self.message().value_view(),
    {
        self.msg.value()
    }

    /// Reads attribute `attr` with `args`; a tracked read. Where the result
    /// is `NeedsQuery`, the host resolves the attribute and passes the
    /// outcome to `record_attr`.
    pub fn attr(&mut self, attr: &str, args: &Vec<(String, String)>) -> (r: AttrLookup)
        ensures
            lookup_view(r) == lookup_spec(old(self).message().attrs_view(), attr@, args_view(args@)),
            attrs_wf(old(self).message().attrs_view()),
            final(self).is_subscribed(),
            final(self).message() == old(self).message(),
            final(self).message_id_view() == old(self).message_id_view(),
            final(self).language_view() == old(self).language_view(),
            final(self).is_precomputed() == old(self).is_precomputed(),
    {
        self.subscribed = true;
        self.msg.lookup_attr(attr, args)
    }

    /// Reads attribute `attr` with `args`, without subscribing.
    pub fn attr_untracked(&self, attr: &str, args: &Vec<(String, String)>) -> (r: AttrLookup)
        ensures
            lookup_view(r) == lookup_spec(self.message().attrs_view(), attr@, args_view(args@)),
            attrs_wf(self.message().attrs_view()),
    {
        self.msg.lookup_attr(attr, args)
    }

    /// Takes the localizer's outcome for attribute `attr` with `args` and
    /// returns what to show (see `Message::record_attr`).
    pub fn record_attr(&mut self, attr: &str, args: &Vec<(String, String)>, outcome: Option<String>) -> (r: String)
        ensures
            final(self).message().id_view() == old(self).message().id_view(),
            final(self).message().value_view() == old(self).message().value_view(),
            match outcome {
                Some(v) => r@ == v@ && final(self).message().attrs_view() == recorded(
                    old(self).message().attrs_view(),
                    attr@,
                    args_view(args@),
                    v@,
                ),
                None => r@ == attr@ && final(self).message().attrs_view() == old(
                    self,
                ).message().attrs_view(),
            },
            final(self).message_id_view() == old(self).message_id_view(),
            final(self).language_view() == old(self).language_view(),
            final(self).is_precomputed() == old(self).is_precomputed(),
            final(self).is_subscribed() == old(self).is_subscribed(),
            attrs_wf(final(self).message().attrs_view()),
    {
        self.msg.record_attr(attr, args, outcome)
    }
}

/// An object that knows how to localize itself.
pub trait Localizable {
    /// The message this object gives under `language`. An implementation
    /// verified with this library defines it; for one written in plain Rust
    /// it stays an unspecified message, which `localize` returns.
    open spec fn localized(&self, language: Seq<char>) -> Message {
        arbitrary()
    }

    /// The message for this object under `language`.
    fn localize(&self, language: &LangId) -> (r: Message)
        ensures
            r == self.localized(language@),
    ;

    /// The value of attribute `attr` with `args` under `language`, or `None`
    /// where it cannot be resolved.
    fn localize_attr(&self, language: &LangId, attr: &str, args: &Vec<(String, String)>) -> Option<String>;
}

/// Wrapping a localizable object in a reactive handle.
pub trait ReactiveLocalizedDisplay: Localizable + Sized {
    /// The handle holding the message this object gives under `language`;
    /// the host builds a new one when the language changes.
    fn reactive_localize(self, language: &LangId) -> (r: ReactiveMessage)
        ensures
            r.message() == self.localized(language@),
            r.is_precomputed(),
            r.language_view() is None,
            !r.is_subscribed(),
    ;
}

impl<T: Localizable> ReactiveLocalizedDisplay for T {
    fn reactive_localize(self, language: &LangId) -> (r: ReactiveMessage) {
        ReactiveMessage::from_precomputed(self.localize(language))
    }
}

} // verus!
