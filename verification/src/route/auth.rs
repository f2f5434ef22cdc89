use crate::ids::{is_token, random_token};
use crate::models::HubError;
use vstd::prelude::*;

verus! {

/// What a user fills in to register.
#[derive(Debug, PartialEq, Eq)]
pub struct Register {
    pub username: String,
    pub name: String,
    pub password: String,
    pub email: String,
}

/// What the link in the verification mail carries.
#[derive(Debug, PartialEq, Eq)]
pub struct VerifyEmail {
    pub otp: String,
    pub email: String,
}

/// A registration that waits for its mail address to be verified.
/// `issued_at` counts milliseconds since the Unix epoch.
#[derive(Debug, PartialEq, Eq)]
pub struct OtpEntry {
    pub otp: String,
    pub form: Register,
    pub issued_at: i64,
}

/// Why a verification is refused.
#[derive(Clone, Copy, Debug, PartialEq, Eq, Structural)]
pub enum OtpError {
    /// No registration waits under the token, or not for this address.
    Invalid,
    /// The registration waited too long.
    Expired,
}

impl OtpError {
    /// The words that tell the user.
    pub fn message(self) -> (text: &'static str)
        ensures
            text@ == (match self {
                OtpError::Invalid => "Invalid OTP"@,
                OtpError::Expired => "Expired token"@,
            }),
    {
        match self {
            OtpError::Invalid => "Invalid OTP",
            OtpError::Expired => "Expired token",
        }
    }

    /// Either way the request is unauthorized.
    pub fn kind(self) -> (failure: HubError)
        ensures
            failure == HubError::Unauthorized,
    {
        HubError::Unauthorized
    }
}

/// The number of characters of a token.
pub const OTP_LENGTH: usize = 10;

/// How long a registration waits for its verification, in milliseconds.
pub const OTP_LIFETIME_MS: i64 = 300_000;

/// How often the waiting registrations are swept, in seconds.
pub const SWEEP_INTERVAL_SECS: u64 = 300;

/// Whether a registration issued at `issued_at` is kept by a sweep at `now`.
pub open spec fn survives_sweep(issued_at: i64, now: i64) -> bool {
    issued_at + OTP_LIFETIME_MS >= now
}

/// Whether a registration issued at `issued_at` is too old to be verified at
/// `now`.
pub open spec fn is_expired(issued_at: i64, now: i64) -> bool {
    now > issued_at + OTP_LIFETIME_MS
}

/// Whether no two entries wait under the same token.
pub open spec fn keys_distinct(entries: Seq<OtpEntry>) -> bool {
    forall|i: int, j: int|
        0 <= i < j < entries.len() ==> (#[trigger] entries[i]).otp@ != (#[trigger] entries[j]).otp@
}

/// The registrations that wait, by token, each with the time it was issued.
pub open spec fn entries_view(entries: Seq<OtpEntry>) -> Map<Seq<char>, (Register, i64)> {
    Map::new(
        |otp: Seq<char>| exists|i: int| 0 <= i < entries.len() && (#[trigger] entries[i]).otp@ == otp,
        |otp: Seq<char>|
            {
                let i = choose|i: int| 0 <= i < entries.len() && (#[trigger] entries[i]).otp@ == otp;
                (entries[i].form, entries[i].issued_at)
            },
    )
}

proof fn lemma_view_at(entries: Seq<OtpEntry>, i: int)
    requires
        keys_distinct(entries),
        0 <= i < entries.len(),
    ensures
        entries_view(entries).contains_key(entries[i].otp@),
        entries_view(entries)[entries[i].otp@] == (entries[i].form, entries[i].issued_at),
{
    let otp = entries[i].otp@;
    let chosen = choose|k: int| 0 <= k < entries.len() && (#[trigger] entries[k]).otp@ == otp;
    if chosen < i {
        assert(entries[chosen].otp@ != entries[i].otp@);
    }
    if i < chosen {
        assert(entries[i].otp@ != entries[chosen].otp@);
    }
}

proof fn lemma_view_len(entries: Seq<OtpEntry>)
    requires
        keys_distinct(entries),
    ensures
        entries_view(entries).dom().finite(),
        entries_view(entries).dom().len() == entries.len(),
    decreases entries.len(),
{
    if entries.len() == 0 {
        assert(entries_view(entries).dom() =~= Set::<Seq<char>>::empty());
    } else {
        let rest = entries.drop_last();
        let last = entries.last();
        assert forall|i: int, j: int| 0 <= i < j < rest.len() implies (#[trigger] rest[i]).otp@ != (
        #[trigger] rest[j]).otp@ by {
            assert(rest[i] == entries[i]);
            assert(rest[j] == entries[j]);
        }
        lemma_view_len(rest);
        if entries_view(rest).contains_key(last.otp@) {
            let i = choose|i: int| 0 <= i < rest.len() && (#[trigger] rest[i]).otp@ == last.otp@;
            assert(rest[i] == entries[i]);
            assert(entries[i].otp@ != entries[entries.len() - 1].otp@);
        }
        lemma_view_push(rest, last);
        assert(rest.push(last) =~= entries);
        assert(entries_view(entries).dom() =~= entries_view(rest).dom().insert(last.otp@));
    }
}

/// What a verification gives: the registration that waits under the token
/// for this address, unless it has waited too long.
pub open spec fn spec_verify(
    waiting: Map<Seq<char>, (Register, i64)>,
    otp: Seq<char>,
    email: Seq<char>,
    now: i64,
) -> Result<Register, OtpError> {
    if !waiting.contains_key(otp) {
        Err(OtpError::Invalid)
    } else if waiting[otp].0.email@ != email {
        Err(OtpError::Invalid)
    } else if is_expired(waiting[otp].1, now) {
        Err(OtpError::Expired)
    } else {
        Ok(waiting[otp].0)
    }
}

/// The registrations that a sweep at `now` keeps.
pub open spec fn spec_sweep(waiting: Map<Seq<char>, (Register, i64)>, now: i64) -> Map<
    Seq<char>,
    (Register, i64),
> {
    Map::new(
        |otp: Seq<char>| waiting.contains_key(otp) && survives_sweep(waiting[otp].1, now),
        |otp: Seq<char>| waiting[otp],
    )
}

proof fn lemma_view_remove(entries: Seq<OtpEntry>, i: int)
    requires
        keys_distinct(entries),
        0 <= i < entries.len(),
    ensures
        keys_distinct(entries.remove(i)),
        entries_view(entries.remove(i)) == entries_view(entries).remove(entries[i].otp@),
{
    let rest = entries.remove(i);
    let gone = entries[i].otp@;
    assert forall|a: int, b: int| 0 <= a < b < rest.len() implies (#[trigger] rest[a]).otp@ != (
    #[trigger] rest[b]).otp@ by {
        let from_a = if a < i {
            a
        } else {
            a + 1
        };
        let from_b = if b < i {
            b
        } else {
            b + 1
        };
        assert(rest[a] == entries[from_a]);
        assert(rest[b] == entries[from_b]);
    }
    let whole = entries_view(entries);
    let left = entries_view(rest);
    assert forall|k: Seq<char>| left.contains_key(k) <==> whole.remove(gone).contains_key(k) by {
        if left.contains_key(k) {
            let a = choose|a: int| 0 <= a < rest.len() && (#[trigger] rest[a]).otp@ == k;
            let from = if a < i {
                a
            } else {
                a + 1
            };
            assert(rest[a] == entries[from]);
            assert(entries[from].otp@ == k);
            if from < i {
                assert(entries[from].otp@ != entries[i].otp@);
            } else {
                assert(entries[i].otp@ != entries[from].otp@);
            }
        }
        if whole.remove(gone).contains_key(k) {
            let j = choose|j: int| 0 <= j < entries.len() && (#[trigger] entries[j]).otp@ == k;
            let to = if j < i {
                j
            } else {
                j - 1
            };
            assert(rest[to] == entries[j]);
            assert(rest[to].otp@ == k);
        }
    }
    assert forall|k: Seq<char>| left.contains_key(k) implies left[k] == whole.remove(gone)[k] by {
        let a = choose|a: int| 0 <= a < rest.len() && (#[trigger] rest[a]).otp@ == k;
        let from = if a < i {
            a
        } else {
            a + 1
        };
        assert(rest[a] == entries[from]);
        lemma_view_at(rest, a);
        lemma_view_at(entries, from);
    }
    assert(left =~= whole.remove(gone));
}

proof fn lemma_view_push(entries: Seq<OtpEntry>, entry: OtpEntry)
    requires
        keys_distinct(entries),
        !entries_view(entries).contains_key(entry.otp@),
    ensures
        keys_distinct(entries.push(entry)),
        entries_view(entries.push(entry)) == entries_view(entries).insert(
            entry.otp@,
            (entry.form, entry.issued_at),
        ),
{
    let more = entries.push(entry);
    let last = entries.len() as int;
    assert forall|a: int, b: int| 0 <= a < b < more.len() implies (#[trigger] more[a]).otp@ != (
    #[trigger] more[b]).otp@ by {
        assert(more[a] == entries[a]);
        if b == last {
            lemma_view_at(entries, a);
        } else {
            assert(more[b] == entries[b]);
        }
    }
    let target = entries_view(entries).insert(entry.otp@, (entry.form, entry.issued_at));
    let have = entries_view(more);
    assert forall|k: Seq<char>| have.contains_key(k) <==> target.contains_key(k) by {
        if have.contains_key(k) {
            let a = choose|a: int| 0 <= a < more.len() && (#[trigger] more[a]).otp@ == k;
            if a < last {
                assert(more[a] == entries[a]);
                lemma_view_at(entries, a);
            }
        }
        if target.contains_key(k) {
            if k == entry.otp@ {
                assert(more[last].otp@ == k);
            } else {
                let a = choose|a: int| 0 <= a < entries.len() && (#[trigger] entries[a]).otp@ == k;
                assert(more[a] == entries[a]);
                assert(more[a].otp@ == k);
            }
        }
    }
    assert forall|k: Seq<char>| have.contains_key(k) implies have[k] == target[k] by {
        let a = choose|a: int| 0 <= a < more.len() && (#[trigger] more[a]).otp@ == k;
        lemma_view_at(more, a);
        if a < last {
            assert(more[a] == entries[a]);
            lemma_view_at(entries, a);
        }
    }
    assert(have =~= target);
}

/// Takes the entry under a token out of a list.
fn take_entry(entries: &mut Vec<OtpEntry>, otp: &str) -> (found: Option<OtpEntry>)
    requires
        keys_distinct(old(entries)@),
    ensures
        keys_distinct(final(entries)@),
        entries_view(final(entries)@) == entries_view(old(entries)@).remove(otp@),
        found is Some <==> entries_view(old(entries)@).contains_key(otp@),
        found matches Some(entry) ==> entries_view(old(entries)@)[otp@] == (
            entry.form,
            entry.issued_at,
        ),
{
    let key = otp.to_owned();
    let mut i: usize = 0;
    while i < entries.len()
        invariant
            entries@ == old(entries)@,
            keys_distinct(entries@),
            key@ == otp@,
            i <= entries@.len(),
            forall|a: int| 0 <= a < i ==> (#[trigger] entries@[a]).otp@ != otp@,
        decreases entries@.len() - i,
    {
        if entries[i].otp == key {
            proof {
                lemma_view_at(entries@, i as int);
                lemma_view_remove(entries@, i as int);
            }
            let entry = entries.remove(i);
            return Some(entry);
        }
        i = i + 1;
    }
    assert(entries_view(entries@).remove(otp@) =~= entries_view(entries@));
    None
}

/// Drops the entries that a sweep at `now` does not keep.
fn drop_expired(entries: &mut Vec<OtpEntry>, now: i64)
    requires
        keys_distinct(old(entries)@),
    ensures
        keys_distinct(final(entries)@),
        entries_view(final(entries)@) == spec_sweep(entries_view(old(entries)@), now),
{
    let ghost whole = entries_view(entries@);
    let mut i: usize = 0;
    while i < entries.len()
        invariant
            keys_distinct(entries@),
            i <= entries@.len(),
            forall|a: int| 0 <= a < i ==> survives_sweep((#[trigger] entries@[a]).issued_at, now),
            forall|k: Seq<char>| #[trigger]
                entries_view(entries@).contains_key(k) ==> whole.contains_key(k) && entries_view(
                    entries@,
                )[k] == whole[k],
            forall|k: Seq<char>|
                whole.contains_key(k) && survives_sweep(whole[k].1, now) ==> #[trigger] entries_view(
                    entries@,
                ).contains_key(k),
        decreases entries@.len() - i,
    {
        if entries[i].issued_at as i128 + OTP_LIFETIME_MS as i128 >= now as i128 {
            i = i + 1;
        } else {
            proof {
                lemma_view_at(entries@, i as int);
                lemma_view_remove(entries@, i as int);
            }
            let _ = entries.remove(i);
        }
    }
    proof {
        let left = entries_view(entries@);
        let kept = spec_sweep(whole, now);
        assert forall|k: Seq<char>| left.contains_key(k) implies kept.contains_key(k) by {
            let a = choose|a: int| 0 <= a < entries@.len() && (#[trigger] entries@[a]).otp@ == k;
            lemma_view_at(entries@, a);
        }
        assert(left =~= kept);
    }
}

/// The registrations that wait for their verification.
#[derive(Debug)]
pub struct OtpStore {
    entries: Vec<OtpEntry>,
}

impl OtpStore {
    /// No two registrations wait under the same token.
    #[verifier::type_invariant]
    spec fn inv(self) -> bool {
        keys_distinct(self.entries@)
    }

    /// The registrations that wait, by token, each with the time it was
    /// issued.
    pub closed spec fn view(&self) -> Map<Seq<char>, (Register, i64)> {
        entries_view(self.entries@)
    }

    /// A store in which nothing waits.
    pub fn new() -> (store: OtpStore)
        ensures
            store@ == Map::<Seq<char>, (Register, i64)>::empty(),
    {
        let store = OtpStore { entries: Vec::new() };
        assert(store@ =~= Map::<Seq<char>, (Register, i64)>::empty());
        store
    }

    /// Lets a registration wait under a token, in place of any that waited
    /// there.
    pub fn insert(&mut self, otp: String, form: Register, now: i64)
        ensures
            final(self)@ == old(self)@.insert(otp@, (form, now)),
    {
        proof {
            use_type_invariant(&*self);
        }
        let mut entries: Vec<OtpEntry> = Vec::new();
        std::mem::swap(&mut self.entries, &mut entries);
        let _ = take_entry(&mut entries, otp.as_str());
        let entry = OtpEntry { otp, form, issued_at: now };
        proof {
            lemma_view_push(entries@, entry);
            assert(old(self)@.remove(otp@).insert(otp@, (form, now)) =~= old(self)@.insert(
                otp@,
                (form, now),
            ));
        }
        entries.push(entry);
        self.entries = entries;
    }

    /// Verifies a mail address: the registration that waits under the token
    /// comes out of the store, whatever becomes of the verification, and is
    /// handed over if it waits for this address and not for too long.
    pub fn verify_email(&mut self, query: &VerifyEmail, now: i64) -> (verified: Result<Register, OtpError>)
        ensures
            final(self)@ == old(self)@.remove(query.otp@),
            verified == spec_verify(old(self)@, query.otp@, query.email@, now),
    {
        proof {
            use_type_invariant(&*self);
        }
        let mut entries: Vec<OtpEntry> = Vec::new();
        std::mem::swap(&mut self.entries, &mut entries);
        let found = take_entry(&mut entries, query.otp.as_str());
        self.entries = entries;
        match found {
            None => Err(OtpError::Invalid),
            Some(entry) => {
                if entry.form.email != query.email {
                    Err(OtpError::Invalid)
                } else if now as i128 > entry.issued_at as i128 + OTP_LIFETIME_MS as i128 {
                    Err(OtpError::Expired)
                } else {
                    Ok(entry.form)
                }
            },
        }
    }

    /// Sweeps the store: a registration is removed once more than the
    /// lifetime has passed since it was issued, and stays, as it is, until
    /// then.
    pub fn sweep(&mut self, now: i64)
        ensures
            final(self)@ == spec_sweep(old(self)@, now),
    {
        proof {
            use_type_invariant(&*self);
        }
        let mut entries: Vec<OtpEntry> = Vec::new();
        std::mem::swap(&mut self.entries, &mut entries);
        drop_expired(&mut entries, now);
        self.entries = entries;
    }

    /// The number of registrations that wait.
    pub fn len(&self) -> (count: usize)
        ensures
            self@.dom().finite(),
            count == self@.dom().len(),
    {
        proof {
            use_type_invariant(self);
            lemma_view_len(self.entries@);
        }
        self.entries.len()
    }
}

/// A sweep removes exactly the registrations that have waited for more than
/// the lifetime, which are those that can no longer be verified; every other
/// one stays as it is.
pub proof fn lemma_sweep_removes_exactly_the_expired(
    waiting: Map<Seq<char>, (Register, i64)>,
    now: i64,
    otp: Seq<char>,
)
    requires
        waiting.contains_key(otp),
    ensures
        !spec_sweep(waiting, now).contains_key(otp) <==> waiting[otp].1 + OTP_LIFETIME_MS < now,
        !spec_sweep(waiting, now).contains_key(otp) <==> is_expired(waiting[otp].1, now),
        spec_sweep(waiting, now).contains_key(otp) ==> spec_sweep(waiting, now)[otp] == waiting[otp],
{
}

/// A swept registration is gone for good: verifying it afterwards finds
/// nothing under its token.
pub proof fn lemma_swept_is_invalid(
    waiting: Map<Seq<char>, (Register, i64)>,
    otp: Seq<char>,
    email: Seq<char>,
    swept_at: i64,
    asked_at: i64,
)
    requires
        waiting.contains_key(otp),
        !survives_sweep(waiting[otp].1, swept_at),
    ensures
        !spec_sweep(waiting, swept_at).contains_key(otp),
        spec_verify(spec_sweep(waiting, swept_at), otp, email, asked_at) == Err::<Register, OtpError>(
            OtpError::Invalid,
        ),
{
}

/// A fresh token: ten random ASCII letters and digits.
pub fn new_otp() -> (otp: String)
    ensures
        is_token(otp@, OTP_LENGTH as nat),
{
    random_token(OTP_LENGTH)
}

/// Whether a registration may go on, given what the store said of the
/// username and the address: not where either is taken, which is a conflict,
/// nor where the store failed.
pub fn register(has_registered: Option<bool>) -> (verdict: Result<(), HubError>)
    ensures
        verdict == (match has_registered {
            Some(false) => Ok::<(), HubError>(()),
            Some(true) => Err::<(), HubError>(HubError::Conflict),
            None => Err::<(), HubError>(HubError::Internal),
        }),
{
    match has_registered {
        Some(false) => Ok(()),
        Some(true) => Err(HubError::Conflict),
        None => Err(HubError::Internal),
    }
}

/// The subject of the verification mail.
pub const MAIL_SUBJECT: &'static str = "ThisCrow Email Verification";

/// The body of the verification mail: a link that carries the address and
/// the token.
pub open spec fn spec_verification_mail(email: Seq<char>, otp: Seq<char>) -> Seq<char> {
    "<a href=\"https://thiscrow.vate.world/verify_email?email="@ + email + "&otp="@ + otp
        + "\">Verify your registration</a>"@
}

pub fn verification_mail(email: &str, otp: &str) -> (body: String)
    ensures
        body@ == spec_verification_mail(email@, otp@),
{
    let mut body = String::from_str("<a href=\"https://thiscrow.vate.world/verify_email?email=");
    body.append(email);
    body.append("&otp=");
    body.append(otp);
    body.append("\">Verify your registration</a>");
    body
}

} // verus!
