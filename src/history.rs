use vstd::prelude::*;

verus! {

/// A ledger record: a file name and its creation time in whole seconds since
/// the Unix epoch.
pub type RecordView = (Seq<char>, u64);

/// What a sequence of stored records says, with each name as its characters.
pub open spec fn records_view(v: Seq<(String, u64)>) -> Seq<RecordView> {
    v.map_values(|p: (String, u64)| (p.0@, p.1))
}

/// The bytes that bincode's default configuration writes for a sequence of
/// (name, seconds) records.
pub uninterp spec fn ledger_encoding(records: Seq<RecordView>) -> Seq<u8>;

/// The records that bincode's default configuration decodes from `bytes`, or
/// `None` where decoding fails.
pub uninterp spec fn ledger_decoding(bytes: Seq<u8>) -> Option<Seq<RecordView>>;

/// `v` is what decoding `bytes` gives wherever `bytes` encodes some records.
pub open spec fn loaded_from(bytes: Seq<u8>, v: Seq<RecordView>) -> bool {
    forall|s: Seq<RecordView>| #[trigger] ledger_encoding(s) == bytes ==> v == s
}

/// Relies on `bincode::serialize` for `Vec<(String, u64)>`: with the default
/// configuration there is no size limit and a `Vec` always has a length, so
/// encoding succeeds, and the bytes are the encoding of the records.
#[verifier::external_body]
fn encode_records(records: &Vec<(String, u64)>) -> (r: Option<Vec<u8>>)
    ensures
        r is Some,
        r matches Some(b) ==> b@ == ledger_encoding(records_view(records@)),
{
    bincode::serialize(records).ok()
}

/// Relies on `bincode::deserialize` for `Vec<(String, u64)>`: bytes that
/// `bincode::serialize` wrote decode back to the records they were written from.
#[verifier::external_body]
fn decode_records(bytes: &[u8]) -> (r: Option<Vec<(String, u64)>>)
    ensures
        r is None ==> ledger_decoding(bytes@) is None,
        r matches Some(v) ==> ledger_decoding(bytes@) == Some(records_view(v@)),
        r is None ==> forall|s: Seq<RecordView>| #[trigger] ledger_encoding(s) != bytes@,
        r matches Some(v) ==> loaded_from(bytes@, records_view(v@)),
{
    bincode::deserialize::<Vec<(String, u64)>>(bytes).ok()
}

/// The records decoded from `bytes`, or none where they do not decode.
pub open spec fn decoded_or_empty(bytes: Seq<u8>) -> Seq<RecordView> {
    match ledger_decoding(bytes) {
        Some(s) => s,
        None => Seq::empty(),
    }
}

/// A point in time after the Unix epoch: whole seconds and the nanoseconds
/// beyond them.
#[derive(Clone, Copy, Debug, PartialEq, Eq, Structural)]
pub struct Timestamp {
    pub secs: u64,
    pub nanos: u32,
}

/// `v` holds a record of `name` created in second `secs`.
pub open spec fn seen(v: Seq<RecordView>, name: Seq<char>, secs: u64) -> bool {
    v.contains((name, secs))
}

/// The set of files handled in earlier runs for one source directory.
///
/// Records keep their order of insertion; an identical record may occur more
/// than once, which changes no lookup.
pub struct History {
    seen_files: Vec<(String, u64)>,
}

impl View for History {
    type V = Seq<RecordView>;

    closed spec fn view(&self) -> Seq<RecordView> {
        records_view(self.seen_files@)
    }
}

impl History {
    /// A history loaded from the ledger's stored bytes: empty when nothing is
    /// stored or the bytes do not decode, otherwise the decoded records.
    pub fn new(stored: Option<Vec<u8>>) -> (r: History)
        ensures
            stored is None ==> r@ == Seq::<RecordView>::empty(),
            stored matches Some(b) ==> r@ == decoded_or_empty(b@),
            stored matches Some(b) ==> loaded_from(b@, r@),
    {
        match stored {
            None => History::empty(),
            Some(bytes) => History::from_records(decode_records(bytes.as_slice())),
        }
    }

    /// A history with no records.
    pub fn empty() -> (r: History)
        ensures
            r@ == Seq::<RecordView>::empty(),
    {
        let r = History { seen_files: Vec::new() };
        assert(r@ =~= Seq::<RecordView>::empty());
        r
    }

    /// A history of the decoded records, or an empty one where decoding failed.
    pub fn from_records(decoded: Option<Vec<(String, u64)>>) -> (r: History)
        ensures
            decoded is None ==> r@ == Seq::<RecordView>::empty(),
            decoded matches Some(v) ==> r@ == records_view(v@),
    {
        match decoded {
            None => History::empty(),
            Some(seen_files) => History { seen_files },
        }
    }

    /// The bytes to store for this history: the encoding of all its records.
    pub fn to_bytes(&self) -> (r: Option<Vec<u8>>)
        ensures
            r is Some,
            r matches Some(b) ==> b@ == ledger_encoding(self@),
    {
        encode_records(&self.seen_files)
    }

    /// The number of records, repeats included.
    pub fn len(&self) -> (r: usize)
        ensures
            r == self@.len(),
    {
        self.seen_files.len()
    }

    /// True iff a record of `name` created in the same second as `created`
    /// exists; the sub-second part plays no role.
    pub fn seen_before(&self, name: &str, created: &Timestamp) -> (r: bool)
        ensures
            r == seen(self@, name@, created.secs),
    {
        let secs = created.secs;
        let mut i: usize = 0;
        while i < self.seen_files.len()
            invariant
                secs == created.secs,
                i <= self.seen_files@.len(),
                forall|j: int| 0 <= j < i ==> #[trigger] self@[j] != (name@, secs),
            decreases self.seen_files@.len() - i,
        {
            let entry = &self.seen_files[i];
            if entry.1 == secs && str_eq(entry.0.as_str(), name) {
                assert(self@[i as int] == (name@, secs));
                assert(self@.contains((name@, secs)));
                return true;
            }
            i = i + 1;
        }
        false
    }

    /// Appends a record of `name` created in the second of `created`, whether
    /// or not an equal record is already present.
    pub fn add_file(&mut self, name: &str, created: &Timestamp)
        ensures
            final(self)@ == old(self)@.push((name@, created.secs)),
    {
        self.seen_files.push((String::from_str(name), created.secs));
        assert(final(self)@ =~= old(self)@.push((name@, created.secs)));
    }
}

/// Whether a record is seen depends on the whole second alone: two creation
/// times within the same second find the same records.
pub proof fn lemma_seen_ignores_subsecond(h: History, name: Seq<char>, t1: Timestamp, t2: Timestamp)
    requires
        t1.secs == t2.secs,
    ensures
        seen(h@, name, t1.secs) == seen(h@, name, t2.secs),
{
}

/// Storing records and loading them back gives the same records, in the same
/// order.
pub proof fn lemma_ledger_round_trip(h: History, stored: Seq<u8>, loaded: History)
    requires
        stored == ledger_encoding(h@),
        loaded_from(stored, loaded@),
    ensures
        loaded@ == h@,
{
}

/// Whether two strings hold the same characters.
fn str_eq(a: &str, b: &str) -> (r: bool)
    ensures
        r == (a@ == b@),
{
    let n = a.unicode_len();
    if n != b.unicode_len() {
        return false;
    }
    let mut i: usize = 0;
    while i < n
        invariant
            n == a@.len(),
            n == b@.len(),
            i <= n,
            forall|j: int| 0 <= j < i ==> a@[j] == b@[j],
        decreases n - i,
    {
        if a.get_char(i) != b.get_char(i) {
            return false;
        }
        i = i + 1;
    }
    assert(a@ =~= b@);
    true
}

} // verus!
