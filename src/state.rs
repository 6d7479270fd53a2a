//! The controller that owns the current language of a session.
//!
//! It decides; the host performs. `set` hands back what must be written to
//! the persistence backend and broadcast to other contexts, and the event
//! handlers take what the host observed (a notification, a storage change, a
//! polled value) and reconcile it into the current value.
use vstd::prelude::*;

use crate::langid::{is_canonical, lemma_parse_round_trip, parse_spec, LangId};
use crate::cookie::{cookie_assignment, cookie_text};
use crate::text::same_text;

verus! {

/// The language reported when the environment reports none.
pub const DEFAULT_LANGUAGE: &'static str = "en-US";

/// Where the current language is kept between sessions.
#[derive(Debug, Clone)]
pub enum LangIdSource {
    /// Nowhere: the language comes from the environment on each start.
    Navigator,
    /// Durable per-origin storage, under the given key.
    LocalStorage(String),
    /// A cookie with the given name; `attributes` (path, expiry, ...) is
    /// appended verbatim to every write.
    Cookie { name: String, attributes: String },
}

/// Why no initial language could be chosen.
#[derive(Debug, Clone, Copy, PartialEq, Eq, Structural)]
pub enum InitError {
    /// The locale reported by the environment is not a language identifier.
    InvalidEnvironmentLocale,
}

/// Why per-origin storage could not be read or written.
#[derive(Debug, Clone, Copy, PartialEq, Eq, Structural)]
pub enum LocalStorageError {
    /// The environment offers no per-origin storage.
    NotAvailable,
    /// Storing an item failed.
    SetError,
    /// Reading an item failed.
    GetError,
}

/// A write that the host must make to the persistence backend.
#[derive(Debug, Clone)]
pub enum Persist {
    /// Store `value` under `key` in per-origin storage.
    LocalStorage { key: String, value: String },
    /// Assign `assignment` to the document's cookie string.
    Cookie { assignment: String },
}

/// What the host must do after `set`: first the write, then the broadcast.
#[derive(Debug, Clone)]
pub struct SetEffects {
    pub persist: Option<Persist>,
    /// The payload of the change notification: the new identifier's text.
    pub notify: String,
}

/// The text the environment's locale is read from.
pub open spec fn environment_text(navigator: Option<Seq<char>>) -> Seq<char> {
    match navigator {
        Some(t) => t,
        None => DEFAULT_LANGUAGE@,
    }
}

/// The text of the initial language, or `None` where none can be chosen:
/// an explicit choice wins, then a stored value that parses, then the
/// environment's locale, then the configured fallback.
pub open spec fn initial_spec(
    explicit: Option<Seq<char>>,
    stored: Option<Seq<char>>,
    navigator: Option<Seq<char>>,
    configured: Option<Seq<char>>,
) -> Option<Seq<char>> {
    if explicit is Some {
        explicit
    } else if stored is Some && parse_spec(stored.unwrap()) is Some {
        parse_spec(stored.unwrap())
    } else if parse_spec(environment_text(navigator)) is Some {
        parse_spec(environment_text(navigator))
    } else {
        configured
    }
}

pub open spec fn opt_view(o: Option<&str>) -> Option<Seq<char>> {
    match o {
        Some(s) => Some(s@),
        None => None,
    }
}

pub open spec fn opt_id_view(o: Option<LangId>) -> Option<Seq<char>> {
    match o {
        Some(l) => Some(l@),
        None => None,
    }
}

/// Chooses the language a session starts with from the caller's explicit
/// choice, the value stored by the backend, the environment's locale (`None`
/// where it reports none) and the caller's fallback for an environment
/// locale that does not parse.
pub fn resolve_initial_language(
    explicit: Option<LangId>,
    stored: Option<&str>,
    navigator: Option<&str>,
    configured: Option<LangId>,
) -> (r: Result<LangId, InitError>)
    ensures
        ({
            let want = initial_spec(
                opt_id_view(explicit),
                opt_view(stored),
                opt_view(navigator),
                opt_id_view(configured),
            );
            match r {
                Ok(l) => want == Some(l@),
                Err(e) => e == InitError::InvalidEnvironmentLocale && want is None,
            }
        }),
{
    if let Some(l) = explicit {
        return Ok(l);
    }
    if let Some(s) = stored {
        if let Some(l) = LangId::parse(s) {
            return Ok(l);
        }
    }
    let text = match navigator {
        Some(t) => t,
        None => DEFAULT_LANGUAGE,
    };
    match LangId::parse(text) {
        Some(l) => Ok(l),
        None => match configured {
            Some(l) => Ok(l),
            None => Err(InitError::InvalidEnvironmentLocale),
        },
    }
}

/// The write that storing `value` takes under `source`.
pub open spec fn persist_spec(source: LangIdSource, value: Seq<char>, p: Option<Persist>) -> bool {
    match source {
        LangIdSource::Navigator => p is None,
        LangIdSource::LocalStorage(key) => match p {
            Some(Persist::LocalStorage { key: k, value: v }) => k@ == key@ && v@ == value,
            _ => false,
        },
        LangIdSource::Cookie { name, attributes } => match p {
            Some(Persist::Cookie { assignment }) => assignment@ == cookie_text(
                name@,
                value,
                attributes@,
            ),
            _ => false,
        },
    }
}

/// The value a session holds after reconciling `raw`: what `raw` parses to,
/// or the fallback where it parses to nothing.
pub open spec fn reconciled(fallback: Seq<char>, raw: Seq<char>) -> Seq<char> {
    match parse_spec(raw) {
        Some(t) => t,
        None => fallback,
    }
}

/// The single owned instance of the current language of a session.
pub struct LanguageState {
    current: LangId,
    fallback: LangId,
    source: LangIdSource,
    live: bool,
    failure_reported: bool,
}

impl LanguageState {
    pub closed spec fn current_view(&self) -> Seq<char> {
        self.current@
    }

    pub closed spec fn fallback_view(&self) -> Seq<char> {
        self.fallback@
    }

    pub closed spec fn source_view(&self) -> LangIdSource {
        self.source
    }

    /// Whether the listeners of this session are still registered.
    pub closed spec fn is_live(&self) -> bool {
        self.live
    }

    /// Whether a failed write was reported and no write succeeded since.
    pub closed spec fn is_failure_reported(&self) -> bool {
        self.failure_reported
    }

    /// Whether `self` has the fallback, source, liveness and failure report
    /// of `other`.
    pub open spec fn keeps_settings(self, other: LanguageState) -> bool {
        &&& self.fallback_view() == other.fallback_view()
        &&& self.source_view() == other.source_view()
        &&& self.is_live() == other.is_live()
        &&& self.is_failure_reported() == other.is_failure_reported()
    }

    /// Creates the state of a session that starts with `initial`, which is
    /// also the fallback for external values that do not parse.
    pub fn new(source: LangIdSource, initial: LangId) -> (r: LanguageState)
        ensures
            r.current_view() == initial@,
            r.fallback_view() == initial@,
            r.source_view() == source,
            r.is_live(),
            !r.is_failure_reported(),
    {
        let fallback = initial.duplicate();
        LanguageState { current: initial, fallback, source, live: true, failure_reported: false }
    }

    /// A snapshot of the current language.
    pub fn current_untracked(&self) -> (r: LangId)
        ensures
            r@ == self.current_view(),
    {
        self.current.duplicate()
    }

    /// The language that unparsable external values fall back to.
    pub fn fallback(&self) -> (r: LangId)
        ensures
            r@ == self.fallback_view(),
    {
        self.fallback.duplicate()
    }

    pub fn source(&self) -> (r: &LangIdSource)
        ensures
            *r == self.source_view(),
    {
        &self.source
    }

    /// Makes `new` the current language. The host then performs the returned
    /// write (failures are reported, never rolled back) and, after it, the
    /// broadcast.
    ///
    /// Every `set` asks for a write, also when `new` is the current value:
    /// the backend may have been changed by another context since, and a
    /// write that failed is tried again this way, so after each `set` the
    /// backend holds the value that was set.
    pub fn set(&mut self, new: LangId) -> (e: SetEffects)
        ensures
            final(self).current_view() == new@,
            final(self).keeps_settings(*old(self)),
            persist_spec(old(self).source_view(), new@, e.persist),
            e.notify@ == new@,
    {
        let text = new.to_string();
        let persist = match &self.source {
            LangIdSource::Navigator => None,
            LangIdSource::LocalStorage(key) => Some(
                Persist::LocalStorage { key: key.clone(), value: text.clone() },
            ),
            LangIdSource::Cookie { name, attributes } => Some(
                Persist::Cookie {
                    assignment: cookie_assignment(name.as_str(), text.as_str(), attributes.as_str()),
                },
            ),
        };
        self.current = new;
        SetEffects { persist, notify: text }
    }

    /// Applies an externally observed value: what it parses to, or the
    /// fallback where it does not parse. Nothing is written or broadcast.
    /// Returns whether the current value changed.
    pub fn reconcile_external(&mut self, raw: &str) -> (changed: bool)
        ensures
            final(self).current_view() == reconciled(old(self).fallback_view(), raw@),
            final(self).keeps_settings(*old(self)),
            changed == (final(self).current_view() != old(self).current_view()),
    {
        let next = match LangId::parse(raw) {
            Some(l) => l,
            None => self.fallback.duplicate(),
        };
        let changed = !same_text(next.as_str(), self.current.as_str());
        self.current = next;
        changed
    }

    /// Handles the change notification of another context. A payload that is
    /// not text is ignored, as is every notification after `teardown`.
    pub fn on_notification(&mut self, detail: Option<&str>) -> (changed: bool)
        ensures
            (old(self).is_live() && detail is Some) ==> final(self).current_view() == reconciled(
                old(self).fallback_view(),
                detail.unwrap()@,
            ),
            !(old(self).is_live() && detail is Some) ==> final(self).current_view()
                == old(self).current_view(),
            final(self).keeps_settings(*old(self)),
            changed == (final(self).current_view() != old(self).current_view()),
    {
        if !self.live {
            return false;
        }
        match detail {
            Some(raw) => self.reconcile_external(raw),
            None => false,
        }
    }

    /// Handles a storage change seen by the host: `key` is the key that
    /// changed (`None` where the whole storage was cleared) and `new_value`
    /// its new value (`None` where it was removed, which reconciles to the
    /// fallback). Changes of other keys, and all changes when this session
    /// does not use per-origin storage or after `teardown`, are ignored.
    pub fn on_storage_event(&mut self, key: Option<&str>, new_value: Option<&str>) -> (changed:
        bool)
        ensures
            ({
                let applies = old(self).is_live() && match old(self).source_view() {
                    LangIdSource::LocalStorage(k) => key is None || key.unwrap()@ == k@,
                    _ => false,
                };
                &&& applies && new_value is Some ==> final(self).current_view() == reconciled(
                    old(self).fallback_view(),
                    new_value.unwrap()@,
                )
                &&& applies && new_value is None ==> final(self).current_view()
                    == old(self).fallback_view()
                &&& !applies ==> final(self).current_view() == old(self).current_view()
            }),
            final(self).keeps_settings(*old(self)),
            changed == (final(self).current_view() != old(self).current_view()),
    {
        if !self.live {
            return false;
        }
        let applies = match &self.source {
            LangIdSource::LocalStorage(k) => match key {
                Some(changed_key) => same_text(changed_key, k.as_str()),
                None => true,
            },
            _ => false,
        };
        if !applies {
            return false;
        }
        match new_value {
            Some(raw) => self.reconcile_external(raw),
            None => {
                let next = self.fallback.duplicate();
                let changed = !same_text(next.as_str(), self.current.as_str());
                self.current = next;
                changed
            },
        }
    }

    /// Handles one polling tick: `observed` is the backend's value for the
    /// key now, `None` where the key is gone. A value that differs from the
    /// current text is reconciled; a missing value reconciles to the
    /// fallback, as a removed key does in `on_storage_event`. A tick after
    /// `teardown` changes nothing.
    pub fn on_poll(&mut self, observed: Option<&str>) -> (changed: bool)
        ensures
            ({
                let live = old(self).is_live();
                &&& live && observed is Some && observed.unwrap()@ != old(self).current_view()
                    ==> final(self).current_view() == reconciled(
                    old(self).fallback_view(),
                    observed.unwrap()@,
                )
                &&& live && observed is Some && observed.unwrap()@ == old(self).current_view()
                    ==> final(self).current_view() == old(self).current_view()
                &&& live && observed is None ==> final(self).current_view()
                    == old(self).fallback_view()
                &&& !live ==> final(self).current_view() == old(self).current_view()
            }),
            final(self).keeps_settings(*old(self)),
            changed == (final(self).current_view() != old(self).current_view()),
    {
        if !self.live {
            return false;
        }
        match observed {
            Some(raw) => {
                if same_text(raw, self.current.as_str()) {
                    false
                } else {
                    self.reconcile_external(raw)
                }
            },
            None => {
                let next = self.fallback.duplicate();
                let changed = !same_text(next.as_str(), self.current.as_str());
                self.current = next;
                changed
            },
        }
    }

    /// Takes the outcome of the host's write after `set`, and says whether a
    /// failure must be reported: only the first of a run of failures is.
    /// The next `set` asks for the write again either way.
    pub fn on_persist_result(&mut self, ok: bool) -> (report: bool)
        ensures
            report == (!ok && !old(self).is_failure_reported()),
            final(self).is_failure_reported() == !ok,
            final(self).current_view() == old(self).current_view(),
            final(self).fallback_view() == old(self).fallback_view(),
            final(self).source_view() == old(self).source_view(),
            final(self).is_live() == old(self).is_live(),
    {
        let report = !ok && !self.failure_reported;
        self.failure_reported = !ok;
        report
    }

    /// Marks the listeners as unregistered: later events are no-ops.
    pub fn teardown(&mut self)
        ensures
            !final(self).is_live(),
            final(self).current_view() == old(self).current_view(),
            final(self).fallback_view() == old(self).fallback_view(),
            final(self).source_view() == old(self).source_view(),
    {
        self.live = false;
    }
}

/// Reconciling is idempotent: the value that reconciling any raw text
/// leaves, reconciled again from its own text (as when a context hears its own
/// notification), stays as it is, so the second call reports no change, and
/// reconciling writes and broadcasts nothing in either call.
pub proof fn lemma_reconcile_idempotent(fallback: Seq<char>, raw: Seq<char>)
    requires
        is_canonical(fallback),
    ensures
        reconciled(fallback, reconciled(fallback, raw)) == reconciled(fallback, raw),
{
    if parse_spec(raw) is Some {
        lemma_parse_round_trip(raw);
    }
}

} // verus!
