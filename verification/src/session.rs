//! Results of background requests and the credentials they were sent under.
//!
//! Every request carries the generation of the credentials in use when it was
//! sent. After a profile switch the generation moves on, and results that still
//! arrive from requests of the earlier credentials are dropped, so that the
//! screen never shows the previous account again.

use vstd::prelude::*;

use crate::state::Loadable;
use crate::text::{chars_of, string_from_chars};

verus! {

/// What a background request hands back, as far as the rule on stale results
/// reads it.
#[derive(Debug, Clone, Copy, PartialEq, Eq, Structural)]
pub enum MessageKind {
    /// Credentials read for a profile switch.
    CredentialsLoaded,
    /// The check of a newly written profile.
    ProfileVerified,
    /// The check of a registry login.
    LoginVerified,
    /// A registry login read back from the key chain.
    SavedLogin,
    /// A listing, a count or the outcome of an action.
    Other,
}

impl MessageKind {
    /// Results that hold whatever the generation: the hand-over of credentials
    /// and the registry logins work regardless of the account shown.
    pub open spec fn spec_ignores_epoch(self) -> bool {
        !(self is Other)
    }

    pub fn ignores_epoch(&self) -> (r: bool)
        ensures
            r == self.spec_ignores_epoch(),
    {
        match self {
            MessageKind::Other => false,
            _ => true,
        }
    }
}

/// Whether a result sent under generation `sent` enters the screen while the
/// credentials of generation `current` are in use.
pub open spec fn spec_accepts_message(current: u64, sent: u64, kind: MessageKind) -> bool {
    sent == current || kind.spec_ignores_epoch()
}

pub fn accepts_message(current: u64, sent: u64, kind: MessageKind) -> (r: bool)
    ensures
        r == spec_accepts_message(current, sent, kind),
{
    sent == current || kind.ignores_epoch()
}

/// The requests in flight and the generation of the credentials in use.
#[derive(Debug, Clone, Copy, PartialEq, Eq, Structural)]
pub struct Session {
    pub epoch: u64,
    pub inflight: usize,
}

impl Session {
    pub fn new() -> (s: Session)
        ensures
            s.epoch == 0,
            s.inflight == 0,
    {
        Session { epoch: 0, inflight: 0 }
    }

    /// A request is sent; it carries the current generation.
    pub fn request_sent(&mut self) -> (sent: u64)
        requires
            old(self).inflight < usize::MAX,
        ensures
            sent == old(self).epoch,
            final(self).epoch == old(self).epoch,
            final(self).inflight == old(self).inflight + 1,
    {
        self.inflight = self.inflight + 1;
        self.epoch
    }

    /// A result arrives from a request sent under generation `sent`. It is no
    /// longer in flight; the result says whether it enters the screen.
    pub fn result_arrived(&mut self, sent: u64, kind: MessageKind) -> (r: bool)
        ensures
            r == spec_accepts_message(old(self).epoch, sent, kind),
            final(self).epoch == old(self).epoch,
            final(self).inflight == if old(self).inflight == 0 { 0 } else { old(self).inflight - 1 },
    {
        self.inflight = if self.inflight == 0 { 0 } else { self.inflight - 1 };
        accepts_message(self.epoch, sent, kind)
    }

    /// The credentials change: from now on results of requests sent before are
    /// dropped.
    pub fn credentials_changed(&mut self)
        requires
            old(self).epoch < u64::MAX,
        ensures
            final(self).epoch == old(self).epoch + 1,
            final(self).inflight == old(self).inflight,
    {
        self.epoch = self.epoch + 1;
    }
}

/// What a listing result leaves on screen, and the error for the status line
/// when it failed.
pub fn store_result<T>(result: Result<T, String>) -> (r: (Loadable<T>, Option<String>))
    ensures
        result matches Ok(v) ==> r.0 == Loadable::Ready(v) && r.1 is None,
        result matches Err(e) ==> r.0 == Loadable::<T>::Failed(e) && r.1 == Some(e),
{
    match result {
        Ok(items) => (Loadable::Ready(items), None),
        Err(err) => {
            let status = err.clone();
            (Loadable::Failed(err), Some(status))
        },
    }
}

/// The text with its line breaks turned into spaces.
pub open spec fn one_line(s: Seq<char>) -> Seq<char> {
    s.map_values(|c: char| if c == '\n' { ' ' } else { c })
}

/// The status line of an error shown in a dialog: the status line has one line,
/// so line breaks become spaces.
pub fn error_status_line(body: &str) -> (r: String)
    ensures
        r@ == one_line(body@),
{
    let v = chars_of(body);
    let mut out: Vec<char> = Vec::new();
    let mut i: usize = 0;
    while i < v.len()
        invariant
            i <= v.len(),
            v@ == body@,
            out@ == one_line(v@.subrange(0, i as int)),
        decreases v.len() - i,
    {
        let c = v[i];
        out.push(if c == '\n' { ' ' } else { c });
        i = i + 1;
        assert(out@ =~= one_line(v@.subrange(0, i as int)));
    }
    assert(v@.subrange(0, v.len() as int) =~= v@);
    string_from_chars(&out)
}

/// A result sent under the credentials in use enters the screen.
pub proof fn law_current_results_enter(epoch: u64, kind: MessageKind)
    ensures
        spec_accepts_message(epoch, epoch, kind),
{
}

/// After a switch of credentials, a result sent before it is dropped unless it
/// is one that holds whatever the generation.
pub proof fn law_results_before_a_switch_are_dropped(epoch: u64, kind: MessageKind)
    requires
        epoch < u64::MAX,
    ensures
        spec_accepts_message((epoch + 1) as u64, epoch, kind) <==> kind.spec_ignores_epoch(),
{
}

} // verus!
