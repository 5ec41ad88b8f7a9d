//! How a stranger becomes an authorized user: a code is shown to the stranger,
//! who passes it to the owner, who approves or rejects it.
use vstd::prelude::*;
use vstd::string::*;

use crate::error::ChannelError;
use crate::random;
use crate::random::random_bytes;
use crate::text;
use crate::text::{str_eq, u64_text};
use crate::types;
use crate::types::copy_opt;

verus! {

/// How many digits a pairing code has.
pub const PAIRING_CODE_LENGTH: usize = 6;

/// How many pairing codes there are.
pub const PAIRING_CODE_COUNT: u32 = 1_000_000;

/// Milliseconds for which a pairing code holds.
pub const PAIRING_CODE_TTL_MS: i64 = 600_000;

/// What has become of a pairing code.
#[derive(Clone, Copy, Debug, PartialEq, Eq, Structural)]
pub enum PairingStatus {
    Pending,
    Approved,
    Rejected,
    Expired,
}

/// The name of a status.
pub open spec fn pairing_status_text(s: PairingStatus) -> Seq<char> {
    match s {
        PairingStatus::Pending => "pending"@,
        PairingStatus::Approved => "approved"@,
        PairingStatus::Rejected => "rejected"@,
        PairingStatus::Expired => "expired"@,
    }
}

impl PairingStatus {
    /// The name of this status.
    pub fn as_str(&self) -> (r: &'static str)
        ensures
            r@ == pairing_status_text(*self),
    {
        match self {
            PairingStatus::Pending => "pending",
            PairingStatus::Approved => "approved",
            PairingStatus::Rejected => "rejected",
            PairingStatus::Expired => "expired",
        }
    }
}

/// A pairing code and whom it is for.
#[derive(Debug, PartialEq, Eq)]
pub struct PairingCode {
    pub code: String,
    pub owner_user_id: String,
    pub platform_user_id: String,
    pub platform_type: String,
    pub display_name: Option<String>,
    pub requested_at: i64,
    pub expires_at: i64,
    pub status: String,
}

/// What a pairing code holds.
pub struct PairingView {
    pub code: Seq<char>,
    pub owner_user_id: Seq<char>,
    pub platform_user_id: Seq<char>,
    pub platform_type: Seq<char>,
    pub display_name: Option<Seq<char>>,
    pub requested_at: i64,
    pub expires_at: i64,
    pub status: Seq<char>,
}

impl View for PairingCode {
    type V = PairingView;

    open spec fn view(&self) -> PairingView {
        PairingView {
            code: self.code@,
            owner_user_id: self.owner_user_id@,
            platform_user_id: self.platform_user_id@,
            platform_type: self.platform_type@,
            display_name: types::opt_text(self.display_name),
            requested_at: self.requested_at,
            expires_at: self.expires_at,
            status: self.status@,
        }
    }
}

/// What each pairing code of a list holds.
pub open spec fn pairing_views(rows: Seq<PairingCode>) -> Seq<PairingView> {
    rows.map_values(|r: PairingCode| r@)
}

/// A user who may talk to the agent.
#[derive(Debug, PartialEq, Eq)]
pub struct AssistantUser {
    pub id: String,
    pub owner_user_id: String,
    pub platform_user_id: String,
    pub platform_type: String,
    pub display_name: Option<String>,
    pub authorized_at: i64,
    pub last_active: Option<i64>,
    pub session_id: Option<String>,
}

/// What a user record holds.
pub struct AssistantUserView {
    pub id: Seq<char>,
    pub owner_user_id: Seq<char>,
    pub platform_user_id: Seq<char>,
    pub platform_type: Seq<char>,
    pub display_name: Option<Seq<char>>,
    pub authorized_at: i64,
    pub last_active: Option<i64>,
    pub session_id: Option<Seq<char>>,
}

impl View for AssistantUser {
    type V = AssistantUserView;

    open spec fn view(&self) -> AssistantUserView {
        AssistantUserView {
            id: self.id@,
            owner_user_id: self.owner_user_id@,
            platform_user_id: self.platform_user_id@,
            platform_type: self.platform_type@,
            display_name: types::opt_text(self.display_name),
            authorized_at: self.authorized_at,
            last_active: self.last_active,
            session_id: types::opt_text(self.session_id),
        }
    }
}

// ---------------------------------------------------------------------------
// Codes
// ---------------------------------------------------------------------------

/// `digits` with zeros in front, so that there are at least `width`.
pub open spec fn zero_padded(digits: Seq<char>, width: nat) -> Seq<char> {
    if digits.len() >= width {
        digits
    } else {
        Seq::new((width - digits.len()) as nat, |i: int| '0') + digits
    }
}

/// The pairing code of a random number.
pub open spec fn code_of(n: nat) -> Seq<char> {
    zero_padded(text::nat_text(n % PAIRING_CODE_COUNT as nat), PAIRING_CODE_LENGTH as nat)
}

/// Whether a text is a pairing code: as many digits as a code has.
pub open spec fn is_pairing_code(s: Seq<char>) -> bool {
    s.len() == PAIRING_CODE_LENGTH && forall|i: int| 0 <= i < s.len() ==> '0' <= #[trigger] s[i] <= '9'
}

/// A number below ten to the power of `width` has at most `width` digits.
proof fn lemma_digit_count(n: nat, bound: nat, width: nat)
    requires
        n < bound,
        bound == vstd::arithmetic::power::pow(10, width),
        width >= 1,
    ensures
        1 <= text::nat_text(n).len() <= width,
        forall|i: int| 0 <= i < text::nat_text(n).len() ==> '0' <= #[trigger] text::nat_text(n)[i] <= '9',
    decreases width,
{
    if n >= 10 {
        if width == 1 {
            vstd::arithmetic::power::lemma_pow1(10);
            assert(false);
        }
        let tenth = vstd::arithmetic::power::pow(10, (width - 1) as nat) as nat;
        vstd::arithmetic::power::lemma_pow_positive(10, (width - 1) as nat);
        assert(bound == 10 * tenth) by {
            reveal(vstd::arithmetic::power::pow);
        }
        lemma_digit_count(n / 10, tenth, (width - 1) as nat);
    }
}

/// Every random number gives a pairing code.
pub proof fn law_code_is_valid(n: nat)
    ensures
        is_pairing_code(code_of(n)),
{
    let m = n % PAIRING_CODE_COUNT as nat;
    assert(vstd::arithmetic::power::pow(10, 6) == 1_000_000) by {
        reveal(vstd::arithmetic::power::pow);
        reveal_with_fuel(vstd::arithmetic::power::pow, 7);
    }
    lemma_digit_count(m, PAIRING_CODE_COUNT as nat, 6);
}

/// The pairing code of a random number.
pub fn pairing_code_of(n: u32) -> (r: String)
    ensures
        r@ == code_of(n as nat),
        is_pairing_code(r@),
{
    proof {
        law_code_is_valid(n as nat);
    }
    let digits = u64_text((n % PAIRING_CODE_COUNT) as u64);
    let len: usize = digits.as_str().unicode_len();
    let mut out = String::new();
    let mut i: usize = len;
    while i < PAIRING_CODE_LENGTH
        invariant
            len <= i,
            len >= PAIRING_CODE_LENGTH ==> i == len,
            len < PAIRING_CODE_LENGTH ==> i <= PAIRING_CODE_LENGTH,
            out@ == Seq::new((i - len) as nat, |k: int| '0'),
        decreases PAIRING_CODE_LENGTH - i,
    {
        out.push('0');
        i += 1;
        assert(out@ =~= Seq::new((i - len) as nat, |k: int| '0'));
    }
    out.append(digits.as_str());
    assert(out@ =~= code_of(n as nat));
    out
}

/// The number that four bytes stand for, the lowest first.
pub open spec fn le_value(bytes: Seq<u8>) -> int {
    bytes[0] + 0x100 * bytes[1] + 0x1_0000 * bytes[2] + 0x100_0000 * bytes[3]
}

/// The number that four bytes stand for, the lowest first.
pub fn le_number(bytes: [u8; 4]) -> (r: u32)
    ensures
        r == le_value(bytes@),
{
    bytes[0] as u32 + 0x100 * bytes[1] as u32 + 0x1_0000 * bytes[2] as u32 + 0x100_0000 * bytes[3] as u32
}

/// The code that a random draw gives, or the error of a draw that failed.
pub fn code_from_draw(draw: Result<u32, String>) -> (r: Result<String, ChannelError>)
    ensures
        match (draw, r) {
            (Ok(n), Ok(code)) => code@ == code_of(n as nat) && is_pairing_code(code@),
            (Err(e), Err(x)) => x@ == crate::error::ErrorView::InvalidConfig(random::draw_failure(e@)),
            _ => false,
        },
{
    match draw {
        Ok(n) => Ok(pairing_code_of(n)),
        Err(e) => {
            let mut text = "RNG failure: ".to_owned();
            text.append(e.as_str());
            Err(ChannelError::InvalidConfig(text))
        },
    }
}

/// A random pairing code.
pub fn generate_pairing_code() -> (r: Result<String, ChannelError>)
    ensures
        match r {
            Ok(code) => is_pairing_code(code@),
            Err(e) => exists|why: Seq<char>|
                e@ == crate::error::ErrorView::InvalidConfig(#[trigger] random::draw_failure(why)),
        },
{
    match random_bytes() {
        Ok(bytes) => code_from_draw(Ok(le_number(bytes))),
        Err(e) => code_from_draw(Err(e)),
    }
}

// ---------------------------------------------------------------------------
// Requests
// ---------------------------------------------------------------------------

/// Whether a pairing code is for this user.
pub open spec fn is_for(row: PairingView, platform_user_id: Seq<char>, platform_type: Seq<char>) -> bool {
    row.platform_user_id == platform_user_id && row.platform_type == platform_type
}

/// The rules by which strangers become users. It keeps nothing: codes and users
/// are stored outside.
pub struct PairingService;

/// The codes among `rows` that are for this user, in their order.
pub open spec fn codes_for(rows: Seq<PairingView>, platform_user_id: Seq<char>, platform_type: Seq<char>) -> Seq<Seq<char>>
    decreases rows.len(),
{
    if rows.len() == 0 {
        Seq::empty()
    } else {
        let earlier = codes_for(rows.drop_last(), platform_user_id, platform_type);
        if is_for(rows.last(), platform_user_id, platform_type) {
            earlier.push(rows.last().code)
        } else {
            earlier
        }
    }
}

impl PairingService {
    /// The pending codes of this user, which end before a new one is made.
    pub fn expire_user_pending_codes(pending: &Vec<PairingCode>, platform_user_id: &str, platform_type: &str) -> (r: Vec<
        String,
    >)
        ensures
            text::texts(r@) == codes_for(pairing_views(pending@), platform_user_id@, platform_type@),
    {
        let ghost views = pairing_views(pending@);
        let mut out: Vec<String> = Vec::new();
        let mut i: usize = 0;
        assert(text::texts(out@) =~= codes_for(views.take(0), platform_user_id@, platform_type@));
        while i < pending.len()
            invariant
                i <= pending.len(),
                views == pairing_views(pending@),
                text::texts(out@) == codes_for(views.take(i as int), platform_user_id@, platform_type@),
            decreases pending.len() - i,
        {
            let row: &PairingCode = &pending[i];
            let ghost before = out@;
            if str_eq(row.platform_user_id.as_str(), platform_user_id) && str_eq(row.platform_type.as_str(), platform_type) {
                out.push(row.code.clone());
                assert(text::texts(out@) =~= text::texts(before).push(row.code@));
            }
            i += 1;
            assert(views.take(i as int).drop_last() =~= views.take(i - 1));
            assert(views.take(i as int).last() == row@);
        }
        assert(views.take(views.len() as int) =~= views);
        out
    }
}

/// A new pairing code for a user.
pub open spec fn new_pairing_view(
    owner_user_id: Seq<char>,
    platform_user_id: Seq<char>,
    platform_type: Seq<char>,
    display_name: Option<Seq<char>>,
    code: Seq<char>,
    now: i64,
) -> PairingView {
    PairingView {
        code,
        owner_user_id,
        platform_user_id,
        platform_type,
        display_name,
        requested_at: now,
        expires_at: (now + PAIRING_CODE_TTL_MS) as i64,
        status: pairing_status_text(PairingStatus::Pending),
    }
}

impl PairingService {
    /// A new pairing code for a user. It is pending, and holds for ten minutes.
    pub fn request_pairing(
        owner_user_id: &str,
        platform_user_id: &str,
        platform_type: &str,
        display_name: &Option<String>,
        code: &str,
        now: i64,
    ) -> (r: PairingCode)
        requires
            now <= i64::MAX - PAIRING_CODE_TTL_MS,
        ensures
            r@ == new_pairing_view(
                owner_user_id@,
                platform_user_id@,
                platform_type@,
                types::opt_text(*display_name),
                code@,
                now,
            ),
    {
        PairingCode {
            code: code.to_owned(),
            owner_user_id: owner_user_id.to_owned(),
            platform_user_id: platform_user_id.to_owned(),
            platform_type: platform_type.to_owned(),
            display_name: copy_opt(display_name),
            requested_at: now,
            expires_at: now + PAIRING_CODE_TTL_MS,
            status: PairingStatus::Pending.as_str().to_owned(),
        }
    }
}

// ---------------------------------------------------------------------------
// Decisions
// ---------------------------------------------------------------------------

/// Whether a stored code can still be decided about, or why it cannot.
pub open spec fn pairing_check(row: Option<PairingView>, code: Seq<char>, now: i64) -> Result<
    PairingView,
    crate::error::ErrorView,
> {
    match row {
        None => Err(crate::error::ErrorView::PairingNotFound(code)),
        Some(r) => if r.status != pairing_status_text(PairingStatus::Pending) {
            Err(crate::error::ErrorView::PairingAlreadyProcessed(code))
        } else if r.expires_at <= now {
            Err(crate::error::ErrorView::PairingExpired(code))
        } else {
            Ok(r)
        },
    }
}

/// What an optional pairing code holds.
pub open spec fn opt_pairing(row: Option<PairingCode>) -> Option<PairingView> {
    match row {
        Some(r) => Some(r@),
        None => None,
    }
}

impl PairingService {
    /// The stored code, where it can still be decided about.
    pub fn get_valid_pending_pairing(row: Option<PairingCode>, code: &str, now: i64) -> (r: Result<PairingCode, ChannelError>)
        ensures
            match r {
                Ok(p) => pairing_check(opt_pairing(row), code@, now) == Ok::<PairingView, crate::error::ErrorView>(p@),
                Err(e) => pairing_check(opt_pairing(row), code@, now) == Err::<PairingView, crate::error::ErrorView>(e@),
            },
    {
        match row {
            None => Err(ChannelError::PairingNotFound(code.to_owned())),
            Some(p) => if !str_eq(p.status.as_str(), PairingStatus::Pending.as_str()) {
                Err(ChannelError::PairingAlreadyProcessed(code.to_owned()))
            } else if p.expires_at <= now {
                Err(ChannelError::PairingExpired(code.to_owned()))
            } else {
                Ok(p)
            },
        }
    }
}

/// The user record of an approved code.
pub open spec fn approved_user(owner_user_id: Seq<char>, row: PairingView, id: Seq<char>, now: i64) -> AssistantUserView {
    AssistantUserView {
        id,
        owner_user_id,
        platform_user_id: row.platform_user_id,
        platform_type: row.platform_type,
        display_name: row.display_name,
        authorized_at: now,
        last_active: None,
        session_id: None,
    }
}

impl PairingService {
    /// The user record of an approved code. A code that is unknown, decided about
    /// or expired makes no user.
    pub fn approve_pairing(owner_user_id: &str, row: Option<PairingCode>, code: &str, user_id: &str, now: i64) -> (r: Result<
        AssistantUser,
        ChannelError,
    >)
        ensures
            match r {
                Ok(u) => {
                    &&& pairing_check(opt_pairing(row), code@, now) is Ok
                    &&& u@ == approved_user(owner_user_id@, opt_pairing(row)->0, user_id@, now)
                },
                Err(e) => pairing_check(opt_pairing(row), code@, now) == Err::<PairingView, crate::error::ErrorView>(e@),
            },
    {
        match Self::get_valid_pending_pairing(row, code, now) {
            Err(e) => Err(e),
            Ok(p) => Ok(
                AssistantUser {
                    id: user_id.to_owned(),
                    owner_user_id: owner_user_id.to_owned(),
                    platform_user_id: p.platform_user_id,
                    platform_type: p.platform_type,
                    display_name: p.display_name,
                    authorized_at: now,
                    last_active: None,
                    session_id: None,
                },
            ),
        }
    }

    /// Whether a code can be rejected: it must be known, pending and not expired.
    pub fn reject_pairing(row: Option<PairingCode>, code: &str, now: i64) -> (r: Result<(), ChannelError>)
        ensures
            match r {
                Ok(_) => pairing_check(opt_pairing(row), code@, now) is Ok,
                Err(e) => pairing_check(opt_pairing(row), code@, now) == Err::<PairingView, crate::error::ErrorView>(e@),
            },
    {
        match Self::get_valid_pending_pairing(row, code, now) {
            Err(e) => Err(e),
            Ok(_) => Ok(()),
        }
    }
}

/// The status that a stored code gets when the owner decides about it: that of the
/// decision where the code could be decided about, and that of an expired code
/// where it was found to be one. Otherwise it keeps the one that it has.
pub open spec fn status_after(decision: PairingStatus, refused: Option<crate::error::ErrorView>) -> Option<
    PairingStatus,
> {
    match refused {
        None => Some(decision),
        Some(crate::error::ErrorView::PairingExpired(_)) => Some(PairingStatus::Expired),
        Some(_) => None,
    }
}

fn decided_status(decision: PairingStatus, refused: Option<&ChannelError>) -> (r: Option<PairingStatus>)
    ensures
        r == status_after(
            decision,
            match refused {
                Some(e) => Some(e@),
                None => None,
            },
        ),
{
    match refused {
        None => Some(decision),
        Some(ChannelError::PairingExpired(_)) => Some(PairingStatus::Expired),
        Some(_) => None,
    }
}

/// Why a decision was refused, if it was.
pub open spec fn refusal<T>(outcome: Result<T, ChannelError>) -> Option<crate::error::ErrorView> {
    match outcome {
        Ok(_) => None,
        Err(e) => Some(e@),
    }
}

impl PairingService {
    /// The status that a code gets with this outcome of its approval.
    pub fn status_of_approval(outcome: &Result<AssistantUser, ChannelError>) -> (r: Option<PairingStatus>)
        ensures
            r == status_after(PairingStatus::Approved, refusal(*outcome)),
    {
        match outcome {
            Ok(_) => decided_status(PairingStatus::Approved, None),
            Err(e) => decided_status(PairingStatus::Approved, Some(e)),
        }
    }

    /// The status that a code gets with this outcome of its rejection.
    pub fn status_of_rejection(outcome: &Result<(), ChannelError>) -> (r: Option<PairingStatus>)
        ensures
            r == status_after(PairingStatus::Rejected, refusal(*outcome)),
    {
        match outcome {
            Ok(_) => decided_status(PairingStatus::Rejected, None),
            Err(e) => decided_status(PairingStatus::Rejected, Some(e)),
        }
    }
}

/// The codes among `rows` that have not expired, in their order.
pub open spec fn unexpired(rows: Seq<PairingView>, now: i64) -> Seq<PairingView> {
    rows.filter(|r: PairingView| r.expires_at > now)
}

impl PairingService {
    /// The codes among `rows` that have not expired.
    pub fn get_pending_pairings(rows: Vec<PairingCode>, now: i64) -> (r: Vec<PairingCode>)
        ensures
            pairing_views(r@) == unexpired(pairing_views(rows@), now),
    {
        let ghost views = pairing_views(rows@);
        let ghost keep = |r: PairingView| r.expires_at > now;
        let ghost all = rows@;
        let mut rest = rows;
        let mut out: Vec<PairingCode> = Vec::new();
        let ghost mut done: int = 0;
        proof {
            reveal(Seq::filter);
        }
        assert(pairing_views(out@) =~= views.take(0).filter(keep));
        while rest.len() > 0
            invariant
                0 <= done <= all.len(),
                rest@ == all.skip(done),
                views == pairing_views(all),
                keep == (|r: PairingView| r.expires_at > now),
                pairing_views(out@) == views.take(done).filter(keep),
            decreases rest.len(),
        {
            let row = rest.remove(0);
            let ghost before = out@;
            assert(row == all[done]);
            assert(rest@ =~= all.skip(done + 1));
            if row.expires_at > now {
                out.push(row);
                assert(pairing_views(out@) =~= pairing_views(before).push(row@));
            }
            proof {
                reveal(Seq::filter);
                assert(views.take(done + 1).drop_last() =~= views.take(done));
                assert(views.take(done + 1).last() == row@);
                done = done + 1;
            }
        }
        assert(views.take(views.len() as int) =~= views);
        out
    }

    /// Whether a platform user is authorized: there is a record of this user.
    pub fn is_user_authorized(user: &Option<AssistantUser>) -> (r: bool)
        ensures
            r == (*user is Some),
    {
        user.is_some()
    }

    /// The id of a platform user, where there is a record of this user.
    pub fn get_internal_user_id(user: &Option<AssistantUser>) -> (r: Option<String>)
        ensures
            types::opt_text(r) == match *user {
                Some(u) => Some(u.id@),
                None => None,
            },
    {
        match user {
            Some(u) => Some(u.id.clone()),
            None => None,
        }
    }
}

// ---------------------------------------------------------------------------
// Laws
// ---------------------------------------------------------------------------

/// A stored code after a decision about the codes in `codes`.
pub open spec fn with_status(row: PairingView, codes: Seq<Seq<char>>, status: PairingStatus) -> PairingView {
    if codes.contains(row.code) {
        PairingView { status: pairing_status_text(status), ..row }
    } else {
        row
    }
}

/// The stored codes after a new one has been requested: the user's pending ones
/// have expired, and the new one has been added.
pub open spec fn store_after_request(store: Seq<PairingView>, new: PairingView) -> Seq<PairingView> {
    let pending = store.filter(|r: PairingView| r.status == pairing_status_text(PairingStatus::Pending));
    let codes = codes_for(pending, new.platform_user_id, new.platform_type);
    store.map_values(|r: PairingView| with_status(r, codes, PairingStatus::Expired)).push(new)
}

proof fn lemma_codes_for_complete(rows: Seq<PairingView>, platform_user_id: Seq<char>, platform_type: Seq<char>, i: int)
    requires
        0 <= i < rows.len(),
        is_for(rows[i], platform_user_id, platform_type),
    ensures
        codes_for(rows, platform_user_id, platform_type).contains(rows[i].code),
    decreases rows.len(),
{
    let all = codes_for(rows, platform_user_id, platform_type);
    let earlier = codes_for(rows.drop_last(), platform_user_id, platform_type);
    if i == rows.len() - 1 {
        assert(all.last() == rows[i].code);
        assert(all[all.len() - 1] == rows[i].code);
    } else {
        lemma_codes_for_complete(rows.drop_last(), platform_user_id, platform_type, i);
        let k = choose|k: int| 0 <= k < earlier.len() && earlier[k] == rows[i].code;
        assert(all[k] == earlier[k]);
    }
}

/// After a request the new code is the only pending one of its user.
pub proof fn law_one_pending_code_per_user(store: Seq<PairingView>, new: PairingView, i: int)
    requires
        0 <= i < store_after_request(store, new).len(),
        is_for(store_after_request(store, new)[i], new.platform_user_id, new.platform_type),
        store_after_request(store, new)[i].status == pairing_status_text(PairingStatus::Pending),
    ensures
        i == store.len(),
        store_after_request(store, new)[i] == new,
{
    let is_pending = |r: PairingView| r.status == pairing_status_text(PairingStatus::Pending);
    let pending = store.filter(is_pending);
    let codes = codes_for(pending, new.platform_user_id, new.platform_type);
    reveal_strlit("pending");
    reveal_strlit("expired");
    assert("pending"@[0] == 'p' && "expired"@[0] == 'e');
    if i < store.len() {
        let row = store[i];
        assert(store_after_request(store, new)[i] == with_status(row, codes, PairingStatus::Expired));
        assert(!codes.contains(row.code));
        store.lemma_filter_contains(is_pending, i);
        let k = choose|k: int| 0 <= k < pending.len() && pending[k] == row;
        lemma_codes_for_complete(pending, new.platform_user_id, new.platform_type, k);
        assert(false);
    }
}

/// A new code can be decided about until its time is up, and not from then on.
pub proof fn law_code_holds_until_expiry(
    owner_user_id: Seq<char>,
    platform_user_id: Seq<char>,
    platform_type: Seq<char>,
    display_name: Option<Seq<char>>,
    code: Seq<char>,
    now: i64,
    later: i64,
)
    requires
        now <= i64::MAX - PAIRING_CODE_TTL_MS,
    ensures
        ({
            let row = new_pairing_view(owner_user_id, platform_user_id, platform_type, display_name, code, now);
            &&& later < now + PAIRING_CODE_TTL_MS ==> pairing_check(Some(row), code, later) == Ok::<
                PairingView,
                crate::error::ErrorView,
            >(row)
            &&& later >= now + PAIRING_CODE_TTL_MS ==> pairing_check(Some(row), code, later) == Err::<
                PairingView,
                crate::error::ErrorView,
            >(crate::error::ErrorView::PairingExpired(code))
        }),
{
}

/// A code that has been decided about cannot be decided about again, whatever
/// the decision was and whatever the time is.
pub proof fn law_decided_once(row: PairingView, decision: PairingStatus, now: i64)
    requires
        decision != PairingStatus::Pending,
    ensures
        pairing_check(Some(PairingView { status: pairing_status_text(decision), ..row }), row.code, now) == Err::<
            PairingView,
            crate::error::ErrorView,
        >(crate::error::ErrorView::PairingAlreadyProcessed(row.code)),
{
    reveal_strlit("pending");
    reveal_strlit("approved");
    reveal_strlit("rejected");
    reveal_strlit("expired");
    assert("pending"@[0] == 'p');
    assert("approved"@[0] == 'a');
    assert("rejected"@[0] == 'r');
    assert("expired"@[0] == 'e');
}

/// What is stored of a code after the owner's decision: a code that is pending and
/// holds gets the decision, one that is pending and has expired is stored as
/// expired, and any other stays as it is.
pub proof fn law_decision_is_stored(row: PairingView, code: Seq<char>, decision: PairingStatus, now: i64)
    ensures
        ({
            let outcome = pairing_check(Some(row), code, now);
            let stored = status_after(
                decision,
                match outcome {
                    Ok(_) => None,
                    Err(e) => Some(e),
                },
            );
            let pending = row.status == pairing_status_text(PairingStatus::Pending);
            &&& pending && row.expires_at > now ==> stored == Some(decision)
            &&& pending && row.expires_at <= now ==> stored == Some(PairingStatus::Expired)
            &&& !pending ==> stored is None
        }),
{
}

proof fn lemma_leading_zeros(zeros: nat, digits: Seq<char>)
    ensures
        text::digits_value(Seq::new(zeros, |i: int| '0') + digits) == text::digits_value(digits),
    decreases digits.len(), zeros,
{
    let z = Seq::new(zeros, |i: int| '0');
    let s = z + digits;
    if digits.len() > 0 {
        assert(s.drop_last() =~= z + digits.drop_last());
        assert(s.last() == digits.last());
        lemma_leading_zeros(zeros, digits.drop_last());
    } else if zeros > 0 {
        assert(s.drop_last() =~= Seq::new((zeros - 1) as nat, |i: int| '0') + digits);
        assert(s.last() == '0');
        lemma_leading_zeros((zeros - 1) as nat, digits);
        assert(text::digits_value(s) == text::digits_value(s.drop_last()) * 10);
        assert(text::digits_value(digits) == 0);
    } else {
        assert(s =~= digits);
    }
}

/// A code is the last six digits of the number that was drawn, so every number below a
/// million has its own.
pub proof fn law_code_tells_its_number(n: nat)
    ensures
        text::digits_value(code_of(n)) == n % 1_000_000,
        code_of(n).len() == 6,
{
    law_code_is_valid(n);
    let digits = text::nat_text(n % 1_000_000);
    text::law_decimal_is_read_back(n % 1_000_000);
    if digits.len() < 6 {
        lemma_leading_zeros((6 - digits.len()) as nat, digits);
    }
}

/// A new code is for the user who asked, pending, and holds for ten minutes.
pub proof fn law_new_code_is_for_who_asked(
    owner_user_id: Seq<char>,
    platform_user_id: Seq<char>,
    platform_type: Seq<char>,
    display_name: Option<Seq<char>>,
    code: Seq<char>,
    now: i64,
)
    requires
        now + 600_000 <= i64::MAX,
    ensures
        ({
            let row = new_pairing_view(owner_user_id, platform_user_id, platform_type, display_name, code, now);
            &&& row.code == code
            &&& row.owner_user_id == owner_user_id
            &&& row.platform_user_id == platform_user_id
            &&& row.platform_type == platform_type
            &&& row.display_name == display_name
            &&& row.requested_at == now
            &&& row.expires_at == now + 600_000
            &&& row.status == "pending"@
            &&& is_for(row, platform_user_id, platform_type)
        }),
{
}

/// An approved code makes a user of who asked for it, under the id that was given, with
/// the owner who approved.
pub proof fn law_approved_user_is_who_asked(owner_user_id: Seq<char>, row: PairingView, id: Seq<char>, now: i64)
    ensures
        ({
            let u = approved_user(owner_user_id, row, id, now);
            &&& u.id == id
            &&& u.owner_user_id == owner_user_id
            &&& u.platform_user_id == row.platform_user_id
            &&& u.platform_type == row.platform_type
            &&& u.display_name == row.display_name
            &&& u.authorized_at == now
            &&& u.last_active is None && u.session_id is None
        }),
{
}

/// The codes that end are exactly those of the user, on the platform.
pub proof fn law_only_own_codes_end(
    rows: Seq<PairingView>,
    platform_user_id: Seq<char>,
    platform_type: Seq<char>,
    code: Seq<char>,
)
    ensures
        codes_for(rows, platform_user_id, platform_type).contains(code) <==> exists|i: int|
            0 <= i < rows.len() && (#[trigger] rows[i]).code == code && rows[i].platform_user_id == platform_user_id
                && rows[i].platform_type == platform_type,
    decreases rows.len(),
{
    let found = codes_for(rows, platform_user_id, platform_type);
    if rows.len() > 0 {
        let before = rows.drop_last();
        let earlier = codes_for(before, platform_user_id, platform_type);
        law_only_own_codes_end(before, platform_user_id, platform_type, code);
        if found.contains(code) {
            let k = found.index_of(code);
            if k < earlier.len() {
                assert(earlier[k] == code);
                let i = choose|i: int|
                    0 <= i < before.len() && (#[trigger] before[i]).code == code && before[i].platform_user_id
                        == platform_user_id && before[i].platform_type == platform_type;
                assert(rows[i] == before[i]);
            } else {
                assert(rows[rows.len() - 1].code == code);
            }
        }
        if exists|i: int|
            0 <= i < rows.len() && (#[trigger] rows[i]).code == code && rows[i].platform_user_id == platform_user_id
                && rows[i].platform_type == platform_type {
            let i = choose|i: int|
                0 <= i < rows.len() && (#[trigger] rows[i]).code == code && rows[i].platform_user_id == platform_user_id
                    && rows[i].platform_type == platform_type;
            if i < rows.len() - 1 {
                assert(before[i] == rows[i]);
                let k = earlier.index_of(code);
                assert(found[k] == earlier[k]);
            } else {
                assert(found[found.len() - 1] == code);
            }
        }
    }
}

/// A decision is refused for its reason: a code that is not known, one that was decided
/// about, or one that has expired.
pub proof fn law_refusals_have_their_reasons(row: Option<PairingView>, code: Seq<char>, now: i64)
    ensures
        ({
            let r = pairing_check(row, code, now);
            &&& row is None <==> r == Err::<PairingView, crate::error::ErrorView>(
                crate::error::ErrorView::PairingNotFound(code),
            )
            &&& row is Some && row->0.status != "pending"@ <==> r == Err::<PairingView, crate::error::ErrorView>(
                crate::error::ErrorView::PairingAlreadyProcessed(code),
            )
            &&& row is Some && row->0.status == "pending"@ && row->0.expires_at <= now <==> r == Err::<
                PairingView,
                crate::error::ErrorView,
            >(crate::error::ErrorView::PairingExpired(code))
            &&& r matches Ok(p) ==> row == Some(p)
        }),
{
}

/// The codes that are listed are exactly those that have not expired.
pub proof fn law_expired_codes_are_not_listed(rows: Seq<PairingView>, now: i64, row: PairingView)
    ensures
        unexpired(rows, now).contains(row) <==> rows.contains(row) && row.expires_at > now,
{
    let keep = |r: PairingView| r.expires_at > now;
    if rows.contains(row) && row.expires_at > now {
        let i = rows.index_of(row);
        assert(keep(rows[i]));
        rows.lemma_filter_contains(keep, i);
    }
    if unexpired(rows, now).contains(row) {
        let i = rows.filter(keep).index_of(row);
        rows.lemma_filter_pred(keep, i);
        rows.lemma_filter_contains_rev(keep, row);
    }
}

/// The first of four bytes counts least, and each further one 256 times as much.
pub proof fn law_first_byte_counts_least(bytes: Seq<u8>)
    requires
        bytes.len() == 4,
    ensures
        le_value(bytes) % 256 == bytes[0],
        le_value(bytes) / 256 % 256 == bytes[1],
        le_value(bytes) / 65536 % 256 == bytes[2],
        le_value(bytes) / 16777216 == bytes[3],
{
}

} // verus!
