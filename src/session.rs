use vstd::prelude::*;
use crate::classifier::{has_listed_extension, Classifier};
use crate::history::{ledger_encoding, loaded_from, seen, History, RecordView, Timestamp};

verus! {

/// One node met while walking the source tree.
pub struct EntryInfo {
    pub name: String,
    pub is_dir: bool,
    /// `None` where the file system could not report a creation time.
    pub created: Option<Timestamp>,
}

pub ghost struct EntryView {
    pub name: Seq<char>,
    pub is_dir: bool,
    pub created: Option<Timestamp>,
}

impl View for EntryInfo {
    type V = EntryView;

    open spec fn view(&self) -> EntryView {
        EntryView { name: self.name@, is_dir: self.is_dir, created: self.created }
    }
}

/// What to do with one entry.
#[derive(Clone, Copy, Debug, PartialEq, Eq, Structural)]
pub enum Step {
    /// A directory, or a file outside the allowlist: nothing to do.
    Ignored,
    /// An eligible file whose creation time is unknown: it is passed over.
    MissingTimestamp,
    /// An eligible file handled in an earlier run; `count` is the number of
    /// skips so far in this session.
    Skipped { count: u64 },
    /// An eligible file not seen before: copy it, then report the outcome.
    Copy,
}

pub ghost struct SessionView {
    pub history: Seq<RecordView>,
    pub extensions: Seq<Seq<char>>,
    pub copied: nat,
    pub skipped: nat,
}

/// An entry that is a file whose name the allowlist accepts.
pub open spec fn eligible(v: SessionView, e: EntryView) -> bool {
    !e.is_dir && has_listed_extension(e.name, v.extensions)
}

/// The session after one entry, and the step taken for it.
pub open spec fn step_result(v: SessionView, e: EntryView) -> (SessionView, Step) {
    if !eligible(v, e) {
        (v, Step::Ignored)
    } else {
        match e.created {
            None => (v, Step::MissingTimestamp),
            Some(t) => if seen(v.history, e.name, t.secs) {
                (SessionView { skipped: v.skipped + 1, ..v }, Step::Skipped { count: (v.skipped + 1) as u64 })
            } else {
                (v, Step::Copy)
            },
        }
    }
}

/// The session after a successful copy of `name`, created in second `secs`.
pub open spec fn copy_result(v: SessionView, name: Seq<char>, secs: u64) -> SessionView {
    SessionView { history: v.history.push((name, secs)), copied: v.copied + 1, ..v }
}

/// The state of one copy run over one source directory: the history of that
/// directory, the allowlist, and the counts of copies and skips so far.
pub struct Session {
    history: History,
    classifier: Classifier,
    copied: u64,
    skipped: u64,
}

impl View for Session {
    type V = SessionView;

    closed spec fn view(&self) -> SessionView {
        SessionView {
            history: self.history@,
            extensions: self.classifier@,
            copied: self.copied as nat,
            skipped: self.skipped as nat,
        }
    }
}

impl Session {
    /// A session that starts from `history`, with both counts at zero.
    pub fn new(history: History, classifier: Classifier) -> (r: Session)
        ensures
            r@ == (SessionView { history: history@, extensions: classifier@, copied: 0, skipped: 0 }),
    {
        Session { history, classifier, copied: 0, skipped: 0 }
    }

    /// Decides what to do with one entry. A skip is counted here; a copy is
    /// counted by `copy_succeeded` once the bytes are in place.
    pub fn step(&mut self, entry: &EntryInfo) -> (r: Step)
        requires
            old(self)@.skipped < u64::MAX,
        ensures
            (final(self)@, r) == step_result(old(self)@, entry@),
    {
        if entry.is_dir || !self.classifier.accepts(entry.name.as_str()) {
            return Step::Ignored;
        }
        match &entry.created {
            None => Step::MissingTimestamp,
            Some(t) => {
                if self.history.seen_before(entry.name.as_str(), t) {
                    self.skipped = self.skipped + 1;
                    Step::Skipped { count: self.skipped }
                } else {
                    Step::Copy
                }
            },
        }
    }

    /// Records a successful copy of `name` and returns the number of copies
    /// so far in this session.
    pub fn copy_succeeded(&mut self, name: &str, created: &Timestamp) -> (r: u64)
        requires
            old(self)@.copied < u64::MAX,
        ensures
            final(self)@ == copy_result(old(self)@, name@, created.secs),
            r == final(self)@.copied,
    {
        self.history.add_file(name, created);
        self.copied = self.copied + 1;
        self.copied
    }

    /// The number of files copied so far.
    pub fn copied(&self) -> (r: u64)
        ensures
            r == self@.copied,
    {
        self.copied
    }

    /// The number of files skipped so far.
    pub fn skipped(&self) -> (r: u64)
        ensures
            r == self@.skipped,
    {
        self.skipped
    }

    /// The history as it stands, to be stored when the session ends.
    pub fn history(&self) -> (r: &History)
        ensures
            r@ == self@.history,
    {
        &self.history
    }
}

/// A file outside the allowlist is ignored wherever it lies: it changes no
/// count and no record, so it is never copied nor remembered.
pub proof fn lemma_unlisted_ignored(v: SessionView, e: EntryView)
    requires
        !has_listed_extension(e.name, v.extensions),
    ensures
        step_result(v, e) == (v, Step::Ignored),
{
}

/// A file copied in one run is skipped by the next run that starts from the
/// stored history, with the same allowlist.
pub proof fn lemma_copied_file_skipped_next_run(
    v: SessionView,
    e: EntryView,
    t: Timestamp,
    stored: Seq<u8>,
    next: SessionView,
)
    requires
        eligible(v, e),
        e.created == Some(t),
        stored == ledger_encoding(copy_result(v, e.name, t.secs).history),
        loaded_from(stored, next.history),
        next.extensions == v.extensions,
    ensures
        step_result(next, e).1 == (Step::Skipped { count: (next.skipped + 1) as u64 }),
        step_result(next, e).0 == (SessionView { skipped: next.skipped + 1, ..next }),
{
    let h = copy_result(v, e.name, t.secs).history;
    assert(next.history == h);
    assert(h[h.len() - 1] == (e.name, t.secs));
    assert(h.contains((e.name, t.secs)));
}

} // verus!
