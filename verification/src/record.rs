use vstd::prelude::*;

verus! {

/// An instant in UTC: whole seconds since the Unix epoch and the nanoseconds
/// within that second.
#[derive(Debug, Clone, Copy, PartialEq, Eq)]
pub struct Timestamp {
    pub secs: i64,
    pub nanos: u32,
}

impl Timestamp {
    /// A single number by which instants are ordered: first by the second,
    /// then by the nanoseconds within it.
    pub open spec fn ordinal(self) -> int {
        self.secs * 0x1_0000_0000 + self.nanos
    }

    /// Whether `self` is an earlier instant than `other`: an earlier second,
    /// or the same second and fewer nanoseconds.
    pub open spec fn is_before(self, other: Timestamp) -> bool {
        self.secs < other.secs || (self.secs == other.secs && self.nanos < other.nanos)
    }

    /// The order of the ordinals is the order of the instants, and two
    /// instants with the same ordinal are the same.
    pub proof fn lemma_ordinal_order(self, other: Timestamp)
        ensures
            self.ordinal() < other.ordinal() <==> self.is_before(other),
            self.ordinal() == other.ordinal() <==> self == other,
    {
    }

    pub fn new(secs: i64, nanos: u32) -> (t: Timestamp)
        ensures
            t == (Timestamp { secs, nanos }),
    {
        Timestamp { secs, nanos }
    }

    /// Whether `self` is at or after `other`.
    pub fn not_before(&self, other: &Timestamp) -> (b: bool)
        ensures
            b == (self.ordinal() >= other.ordinal()),
    {
        self.secs > other.secs || (self.secs == other.secs && self.nanos >= other.nanos)
    }
}

/// What a record holds, as plain mathematical values.
pub struct UrlView {
    pub id: Seq<char>,
    pub original_url: Seq<char>,
    pub short_code: Seq<char>,
    pub created_at: Timestamp,
    pub access_count: int,
}

impl UrlView {
    /// The record as it is right after creation: never resolved yet.
    pub open spec fn fresh(
        id: Seq<char>,
        original_url: Seq<char>,
        short_code: Seq<char>,
        created_at: Timestamp,
    ) -> UrlView {
        UrlView { id, original_url, short_code, created_at, access_count: 0 }
    }

    /// The record after one more successful resolve.
    pub open spec fn visited(self) -> UrlView {
        UrlView { access_count: self.access_count + 1, ..self }
    }
}

/// One shortening: a short code, the URL it stands for, and how often it
/// has been resolved. Only the access count ever changes, and it never
/// goes below zero.
#[derive(Debug)]
pub struct Url {
    id: String,
    original_url: String,
    short_code: String,
    created_at: Timestamp,
    access_count: i64,
}

impl View for Url {
    type V = UrlView;

    closed spec fn view(&self) -> UrlView {
        UrlView {
            id: self.id@,
            original_url: self.original_url@,
            short_code: self.short_code@,
            created_at: self.created_at,
            access_count: self.access_count as int,
        }
    }
}

impl Clone for Url {
    fn clone(&self) -> (copy: Self)
        ensures
            copy@ == self@,
    {
        proof {
            use_type_invariant(self);
        }
        Url {
            id: self.id.clone(),
            original_url: self.original_url.clone(),
            short_code: self.short_code.clone(),
            created_at: self.created_at,
            access_count: self.access_count,
        }
    }
}

impl Url {
    #[verifier::type_invariant]
    spec fn counted_from_zero(self) -> bool {
        self.access_count >= 0
    }

    /// A new record, not yet resolved.
    pub fn new(
        id: String,
        original_url: String,
        short_code: String,
        created_at: Timestamp,
    ) -> (url: Url)
        ensures
            url@ == UrlView::fresh(id@, original_url@, short_code@, created_at),
    {
        Url { id, original_url, short_code, created_at, access_count: 0 }
    }

    /// The same record with its access count raised by one.
    pub fn visited(self) -> (url: Url)
        requires
            self@.access_count < i64::MAX,
        ensures
            url@ == self@.visited(),
    {
        proof {
            use_type_invariant(&self);
        }
        Url {
            id: self.id,
            original_url: self.original_url,
            short_code: self.short_code,
            created_at: self.created_at,
            access_count: self.access_count + 1,
        }
    }

    pub fn id(&self) -> (id: &str)
        ensures
            id@ == self@.id,
    {
        self.id.as_str()
    }

    pub fn original_url(&self) -> (url: &str)
        ensures
            url@ == self@.original_url,
    {
        self.original_url.as_str()
    }

    pub fn short_code(&self) -> (code: &str)
        ensures
            code@ == self@.short_code,
    {
        self.short_code.as_str()
    }

    pub fn created_at(&self) -> (t: Timestamp)
        ensures
            t == self@.created_at,
    {
        self.created_at
    }

    pub fn access_count(&self) -> (n: i64)
        ensures
            n == self@.access_count,
            n >= 0,
    {
        proof {
            use_type_invariant(self);
        }
        self.access_count
    }
}

} // verus!
