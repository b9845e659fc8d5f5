//! Lengths of time, kept as whole seconds and a nanosecond remainder.

use vstd::prelude::*;

verus! {

/// Nanoseconds in one second.
pub const NANOS_PER_SEC: u32 = 1_000_000_000;

/// Nanoseconds in one millisecond.
pub const NANOS_PER_MILLI: u32 = 1_000_000;

/// A length of time. Its view is the total number of nanoseconds.
#[derive(Clone, Copy, Debug, PartialEq, Eq)]
pub struct Span {
    secs: u64,
    nanos: u32,
}

impl View for Span {
    type V = nat;

    closed spec fn view(&self) -> nat {
        (self.secs as nat) * (NANOS_PER_SEC as nat) + (self.nanos as nat)
    }
}

/// The text that `humantime` renders for a duration of `secs` whole seconds
/// and `nanos` further nanoseconds.
pub uninterp spec fn human_duration(secs: u64, nanos: u32) -> Seq<char>;

/// The text that `humantime` renders for a duration of `nanos` nanoseconds
/// in all.
pub open spec fn human_text(nanos: nat) -> Seq<char> {
    human_duration((nanos / 1_000_000_000) as u64, (nanos % 1_000_000_000) as u32)
}

/// Calls `humantime::format_duration` on the duration made of `secs` and
/// `nanos` and renders it. The rendering depends on the duration alone; its
/// composition is the outside crate's, so the result is only named here.
/// `Duration::new` cannot overflow while `nanos` is below one second.
#[verifier::external_body]
fn render_duration(secs: u64, nanos: u32) -> (text: String)
    requires
        nanos < NANOS_PER_SEC,
    ensures
        text@ == human_duration(secs, nanos),
{
    humantime::format_duration(std::time::Duration::new(secs, nanos)).to_string()
}

impl Span {
    #[verifier::type_invariant]
    spec fn well_formed(self) -> bool {
        self.nanos < NANOS_PER_SEC
    }

    /// Whole seconds, as a spec value.
    pub closed spec fn whole_secs(self) -> u64 {
        self.secs
    }

    /// The nanoseconds beyond the whole seconds, as a spec value.
    pub closed spec fn sub_nanos(self) -> u32 {
        self.nanos
    }

    /// A span is fixed by its seconds and its remainder, and the remainder
    /// stays below one second.
    pub proof fn lemma_parts(self)
        requires
            self.sub_nanos() < NANOS_PER_SEC,
        ensures
            self@ == self.whole_secs() * 1_000_000_000 + self.sub_nanos(),
            self@ / 1_000_000_000 == self.whole_secs(),
            self@ % 1_000_000_000 == self.sub_nanos(),
    {
    }

    /// The span of `secs` seconds and `nanos` nanoseconds; `None` when
    /// `nanos` is a second or more.
    pub fn new(secs: u64, nanos: u32) -> (r: Option<Span>)
        ensures
            nanos < NANOS_PER_SEC <==> r is Some,
            r matches Some(s) ==> s@ == secs * 1_000_000_000 + nanos && s.whole_secs() == secs
                && s.sub_nanos() == nanos,
    {
        if nanos < NANOS_PER_SEC {
            Some(Span { secs, nanos })
        } else {
            None
        }
    }

    /// The empty span.
    pub fn zero() -> (s: Span)
        ensures
            s@ == 0,
            s.whole_secs() == 0,
            s.sub_nanos() == 0,
    {
        Span { secs: 0, nanos: 0 }
    }

    /// A span of whole seconds.
    pub fn from_secs(secs: u64) -> (s: Span)
        ensures
            s@ == secs * 1_000_000_000,
            s.whole_secs() == secs,
            s.sub_nanos() == 0,
    {
        Span { secs, nanos: 0 }
    }

    /// A span of whole milliseconds.
    pub fn from_millis(millis: u64) -> (s: Span)
        ensures
            s@ == millis * 1_000_000,
            s.whole_secs() == millis / 1000,
            s.sub_nanos() == (millis % 1000) * 1_000_000,
    {
        let rest: u32 = (millis % 1000) as u32;
        Span { secs: millis / 1000, nanos: rest * NANOS_PER_MILLI }
    }

    /// Whole seconds.
    pub fn as_secs(&self) -> (secs: u64)
        ensures
            secs == self.whole_secs(),
            secs == self@ / 1_000_000_000,
    {
        proof {
            use_type_invariant(self);
        }
        self.secs
    }

    /// The nanoseconds beyond the whole seconds.
    pub fn subsec_nanos(&self) -> (nanos: u32)
        ensures
            nanos == self.sub_nanos(),
            nanos == self@ % 1_000_000_000,
            nanos < NANOS_PER_SEC,
    {
        proof {
            use_type_invariant(self);
        }
        self.nanos
    }

    /// Whether this span is strictly shorter than `other`.
    pub fn shorter_than(&self, other: &Span) -> (r: bool)
        ensures
            r == (self@ < other@),
    {
        proof {
            use_type_invariant(self);
            use_type_invariant(other);
        }
        self.secs < other.secs || (self.secs == other.secs && self.nanos < other.nanos)
    }

    /// The span as `humantime` renders it.
    pub fn text(&self) -> (text: String)
        ensures
            text@ == human_duration(self.whole_secs(), self.sub_nanos()),
            text@ == human_text(self@),
    {
        proof {
            use_type_invariant(self);
            self.lemma_parts();
        }
        render_duration(self.secs, self.nanos)
    }
}

} // verus!
