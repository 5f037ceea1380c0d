//! Invite descriptors: the persisted text that says how a server is joined.
use vstd::prelude::*;
use crate::text::{
    decimal_value, digits_value, is_digit, lemma_decimal_text, parsed_id, parsed_up_to, lemma_split_joined, lemma_split_plain,
    after_last, begins_with, decimal_text, head_of, last_segment, push_decimal, same_text, split_first,
    starts_with, tail_of,
};

verus! {

/// Relies on serenity's `FromStr` for `ChannelId`, which parses a `u64`
/// with `str::parse` and refuses zero.
#[verifier::external_body]
fn parse_channel_id(s: &str) -> (r: Option<u64>)
    ensures
        r == parsed_id(s@),
{
    s.parse::<serenity::all::ChannelId>().ok().map(|c| c.get())
}

/// Relies on `str::parse::<u8>`: an optional `+`, then decimal digits whose
/// value fits.
#[verifier::external_body]
fn parse_u8(s: &str) -> (r: Option<u8>)
    ensures
        r == (match parsed_up_to(s@, u8::MAX as nat) {
            Some(v) => Some(v as u8),
            None => None::<u8>,
        }),
{
    s.parse::<u8>().ok()
}

/// Relies on `str::parse::<u32>`: an optional `+`, then decimal digits whose
/// value fits.
#[verifier::external_body]
fn parse_u32(s: &str) -> (r: Option<u32>)
    ensures
        r == (match parsed_up_to(s@, u32::MAX as nat) {
            Some(v) => Some(v as u32),
            None => None::<u32>,
        }),
{
    s.parse::<u32>().ok()
}

/// How members join a listed server.
pub enum InviteDescriptor {
    /// The server cannot be joined through the directory.
    NoInvite,
    /// A fixed invite link.
    InviteUrl(String),
    /// An invite created for each user in a channel of the server.
    PerUser { channel_id: u64, max_uses: u8, max_age: u32 },
}

/// The abstract value of an invite descriptor.
pub enum InviteModel {
    NoInvite,
    InviteUrl(Seq<char>),
    PerUser(u64, u8, u32),
}

impl View for InviteDescriptor {
    type V = InviteModel;

    open spec fn view(&self) -> InviteModel {
        match self {
            InviteDescriptor::NoInvite => InviteModel::NoInvite,
            InviteDescriptor::InviteUrl(u) => InviteModel::InviteUrl(u@),
            InviteDescriptor::PerUser { channel_id, max_uses, max_age } => InviteModel::PerUser(
                *channel_id,
                *max_uses,
                *max_age,
            ),
        }
    }
}

pub open spec fn none_text() -> Seq<char> {
    seq!['n', 'o', 'n', 'e']
}

pub open spec fn url_kind() -> Seq<char> {
    seq!['i', 'n', 'v', 'i', 't', 'e', '_', 'u', 'r', 'l']
}

pub open spec fn per_user_kind() -> Seq<char> {
    seq!['p', 'e', 'r', '_', 'u', 's', 'e', 'r']
}

/// Default number of uses of a per-user invite.
pub const DEFAULT_MAX_USES: u8 = 1;

/// Default lifetime, in seconds, of a per-user invite.
pub const DEFAULT_MAX_AGE: u32 = 300;

/// The per-user fields after the kind: the channel, then the optional
/// number of uses and lifetime. Fields past these are ignored.
#[verifier::opaque]
pub open spec fn per_user_of(r1: Seq<char>) -> Option<InviteModel> {
    let r2 = tail_of(r1, ':');
    let uses = match r2 {
        None => Some(DEFAULT_MAX_USES as nat),
        Some(x) => parsed_up_to(head_of(x, ':'), u8::MAX as nat),
    };
    let r3 = match r2 {
        None => None,
        Some(x) => tail_of(x, ':'),
    };
    let age = match r3 {
        None => Some(DEFAULT_MAX_AGE as nat),
        Some(y) => parsed_up_to(head_of(y, ':'), u32::MAX as nat),
    };
    match (parsed_id(head_of(r1, ':')), uses, age) {
        (Some(c), Some(u), Some(a)) => Some(InviteModel::PerUser(c, u as u8, a as u32)),
        _ => None,
    }
}

/// How a stored descriptor reads: `none`, `invite_url:<url>` (the url may
/// hold colons) or `per_user:<channel>[:<max uses>[:<max age>]]`.
pub open spec fn descriptor_of(s: Seq<char>) -> Option<InviteModel> {
    if s == none_text() {
        Some(InviteModel::NoInvite)
    } else {
        match tail_of(s, ':') {
            None => None,
            Some(r1) => if head_of(s, ':') == url_kind() {
                Some(InviteModel::InviteUrl(r1))
            } else if head_of(s, ':') == per_user_kind() {
                per_user_of(r1)
            } else {
                None
            },
        }
    }
}

/// How a descriptor is stored.
pub open spec fn descriptor_text(m: InviteModel) -> Seq<char> {
    match m {
        InviteModel::NoInvite => none_text(),
        InviteModel::InviteUrl(u) => url_kind() + seq![':'] + u,
        InviteModel::PerUser(c, u, a) => per_user_kind() + seq![':'] + decimal_text(c as nat) + seq![':']
            + decimal_text(u as nat) + seq![':'] + decimal_text(a as nat),
    }
}

proof fn lemma_decimal_reads_back(n: nat, max: nat)
    requires
        n <= max,
    ensures
        parsed_up_to(decimal_text(n), max) == Some(n),
        !decimal_text(n).contains(':'),
{
    lemma_decimal_text(n);
    let t = decimal_text(n);
    assert(is_digit(t[0]));
    if t.contains(':') {
        let i = choose|i: int| 0 <= i < t.len() && t[i] == ':';
        assert(is_digit(t[i]));
    }
}

/// Writing a descriptor and reading it back gives the descriptor, for every
/// descriptor whose channel id is non-zero (zero is no platform id).
/// Writing a descriptor and reading it back gives the descriptor, for every
/// descriptor whose channel id is non-zero (zero is no platform id).
pub proof fn descriptor_round_trip(m: InviteModel)
    requires
        m matches InviteModel::PerUser(c, _, _) ==> c != 0,
    ensures
        descriptor_of(descriptor_text(m)) == Some(m),
{
    match m {
        InviteModel::NoInvite => {},
        InviteModel::InviteUrl(u) => lemma_url_reads_back(u),
        InviteModel::PerUser(c, n, a) => lemma_per_user_text_reads_back(c, n, a),
    }
}

proof fn lemma_url_reads_back(u: Seq<char>)
    ensures
        descriptor_of(descriptor_text(InviteModel::InviteUrl(u))) == Some(InviteModel::InviteUrl(u)),
{
    let text = descriptor_text(InviteModel::InviteUrl(u));
    assert(!url_kind().contains(':')) by {
        if url_kind().contains(':') {
            let i = choose|i: int| 0 <= i < url_kind().len() && url_kind()[i] == ':';
        }
    }
    lemma_split_joined(url_kind(), ':', u);
    assert(text.len() != none_text().len());
}

proof fn lemma_per_user_text_reads_back(c: u64, n: u8, a: u32)
    requires
        c != 0,
    ensures
        descriptor_of(descriptor_text(InviteModel::PerUser(c, n, a))) == Some(InviteModel::PerUser(c, n, a)),
{
    let text = descriptor_text(InviteModel::PerUser(c, n, a));
    let r1 = decimal_text(c as nat) + seq![':'] + (decimal_text(n as nat) + seq![':'] + decimal_text(a as nat));
    assert(text =~= per_user_kind() + seq![':'] + r1);
    assert(!per_user_kind().contains(':')) by {
        if per_user_kind().contains(':') {
            let i = choose|i: int| 0 <= i < per_user_kind().len() && per_user_kind()[i] == ':';
        }
    }
    lemma_split_joined(per_user_kind(), ':', r1);
    assert(text.len() != none_text().len());
    assert(per_user_kind() != url_kind()) by {
        assert(per_user_kind().len() != url_kind().len());
    }
    lemma_per_user_reads_back(c, n, a);
}

proof fn lemma_per_user_reads_back(c: u64, n: u8, a: u32)
    requires
        c != 0,
    ensures
        per_user_of(
            decimal_text(c as nat) + seq![':'] + (decimal_text(n as nat) + seq![':'] + decimal_text(a as nat)),
        ) == Some(InviteModel::PerUser(c, n, a)),
{
    reveal(per_user_of);
    let dc = decimal_text(c as nat);
    let dn = decimal_text(n as nat);
    let da = decimal_text(a as nat);
    lemma_decimal_reads_back(c as nat, u64::MAX as nat);
    lemma_decimal_reads_back(n as nat, u8::MAX as nat);
    lemma_decimal_reads_back(a as nat, u32::MAX as nat);
    let r2 = dn + seq![':'] + da;
    lemma_split_joined(dc, ':', r2);
    lemma_split_joined(dn, ':', da);
    lemma_split_plain(da, ':');
}

fn parse_per_user(r1: &str) -> (r: Option<InviteDescriptor>)
    ensures
        match r {
            Some(d) => per_user_of(r1@) == Some(d@),
            None => per_user_of(r1@) is None,
        },
{
    reveal(per_user_of);
    let (c, r2) = split_first(r1, ':');
    let channel_id = match parse_channel_id(c) {
        Some(v) => v,
        None => {
            return None;
        },
    };
    let (max_uses, r3) = match r2 {
        None => (DEFAULT_MAX_USES, None),
        Some(x) => {
            let (u, rest) = split_first(x, ':');
            match parse_u8(u) {
                Some(v) => (v, rest),
                None => {
                    return None;
                },
            }
        },
    };
    let max_age = match r3 {
        None => DEFAULT_MAX_AGE,
        Some(y) => {
            let (a, _) = split_first(y, ':');
            match parse_u32(a) {
                Some(v) => v,
                None => {
                    return None;
                },
            }
        },
    };
    Some(InviteDescriptor::PerUser { channel_id, max_uses, max_age })
}

impl InviteDescriptor {
    /// Reads a stored descriptor.
    pub fn parse(s: &str) -> (r: Option<InviteDescriptor>)
        ensures
            match r {
                Some(d) => descriptor_of(s@) == Some(d@),
                None => descriptor_of(s@) is None,
            },
    {
        proof {
            reveal_strlit("none");
            reveal_strlit("invite_url");
            reveal_strlit("per_user");
            assert("none"@ =~= none_text());
            assert("invite_url"@ =~= url_kind());
            assert("per_user"@ =~= per_user_kind());
        }
        if same_text(s, "none") {
            return Some(InviteDescriptor::NoInvite);
        }
        let (kind, rest) = split_first(s, ':');
        let r1 = match rest {
            Some(r1) => r1,
            None => {
                return None;
            },
        };
        if same_text(kind, "invite_url") {
            Some(InviteDescriptor::InviteUrl(String::from_str(r1)))
        } else if same_text(kind, "per_user") {
            parse_per_user(r1)
        } else {
            None
        }
    }

    /// The stored form of this descriptor.
    pub fn to_text(&self) -> (r: String)
        ensures
            r@ == descriptor_text(self@),
    {
        proof {
            reveal_strlit("none");
            reveal_strlit("invite_url:");
            reveal_strlit("per_user:");
            reveal_strlit(":");
        }
        match self {
            InviteDescriptor::NoInvite => {
                let s = String::from_str("none");
                assert(s@ =~= none_text());
                s
            },
            InviteDescriptor::InviteUrl(u) => {
                let mut s = String::from_str("invite_url:");
                s.append(u.as_str());
                assert(s@ =~= url_kind() + seq![':'] + u@);
                s
            },
            InviteDescriptor::PerUser { channel_id, max_uses, max_age } => {
                let mut s = String::from_str("per_user:");
                push_decimal(&mut s, *channel_id);
                s.append(":");
                push_decimal(&mut s, *max_uses as u64);
                s.append(":");
                push_decimal(&mut s, *max_age as u64);
                assert(s@ =~= descriptor_text(self@));
                s
            },
        }
    }
}

/// Why no invite could be given.
pub enum CreateInviteForUserError {
    Generic { message: String },
    ServerNotFound {},
    ServerNeedsLoginForInvite {},
    UserIsBlacklisted {},
    ServerHasNoInvite {},
    ServerHasInvalidInvite {},
    ServerTypeNotApprovedOrCertified {},
    ServerStateNotPublic {},
}

/// An invite given to a user.
pub enum CreateInviteForUserResult {
    Invite { url: String },
}

/// What the store holds about a server's invite policy.
pub struct InviteSettings {
    pub login_required_for_invite: bool,
    pub blacklisted_users: Vec<String>,
    pub invite: String,
    pub server_type: String,
    pub state: String,
}

/// What to do to give a user an invite: hand out a fixed one, or have the
/// platform create one in a channel.
pub enum InvitePlan {
    Ready(CreateInviteForUserResult),
    CreatePerUser { channel_id: u64, max_uses: u8, max_age: u32 },
}

pub open spec fn is_blacklisted(row: InviteSettings, user: u64) -> bool {
    exists|i: int| 0 <= i < row.blacklisted_users@.len() && row.blacklisted_users@[i]@ == decimal_text(user as nat)
}

/// The first policy check that refuses the user an invite.
pub open spec fn policy_error(row: InviteSettings, user: Option<u64>) -> Option<CreateInviteForUserError> {
    if row.login_required_for_invite && user is None {
        Some(CreateInviteForUserError::ServerNeedsLoginForInvite {})
    } else if row.login_required_for_invite && is_blacklisted(row, user->Some_0) {
        Some(CreateInviteForUserError::UserIsBlacklisted {})
    } else if row.server_type@ != "approved"@ && row.server_type@ != "certified"@ {
        Some(CreateInviteForUserError::ServerTypeNotApprovedOrCertified {})
    } else if row.state@ != "public"@ {
        Some(CreateInviteForUserError::ServerStateNotPublic {})
    } else {
        None
    }
}

/// The user-facing text of an error.
pub open spec fn error_message(e: CreateInviteForUserError) -> Seq<char> {
    match e {
        CreateInviteForUserError::Generic { message } => message@,
        CreateInviteForUserError::ServerNotFound {} => "Server not found"@,
        CreateInviteForUserError::ServerNeedsLoginForInvite {} => "In order to view this server, you must login!"@,
        CreateInviteForUserError::UserIsBlacklisted {} => "User is blacklisted from this server"@,
        CreateInviteForUserError::ServerHasNoInvite {} => "Server has no invite"@,
        CreateInviteForUserError::ServerHasInvalidInvite {} => "Server has an invalid invite"@,
        CreateInviteForUserError::ServerTypeNotApprovedOrCertified {} => "Server is not approved or certified"@,
        CreateInviteForUserError::ServerStateNotPublic {} => "Server is not public"@,
    }
}

impl CreateInviteForUserError {
    /// The user-facing text of this error.
    pub fn message(&self) -> (r: String)
        ensures
            r@ == error_message(*self),
    {
        match self {
            CreateInviteForUserError::Generic { message } => message.clone(),
            CreateInviteForUserError::ServerNotFound {} => String::from_str("Server not found"),
            CreateInviteForUserError::ServerNeedsLoginForInvite {} => String::from_str(
                "In order to view this server, you must login!",
            ),
            CreateInviteForUserError::UserIsBlacklisted {} => String::from_str("User is blacklisted from this server"),
            CreateInviteForUserError::ServerHasNoInvite {} => String::from_str("Server has no invite"),
            CreateInviteForUserError::ServerHasInvalidInvite {} => String::from_str("Server has an invalid invite"),
            CreateInviteForUserError::ServerTypeNotApprovedOrCertified {} => String::from_str(
                "Server is not approved or certified",
            ),
            CreateInviteForUserError::ServerStateNotPublic {} => String::from_str("Server is not public"),
        }
    }
}

fn blacklisted(row: &InviteSettings, user: u64) -> (r: bool)
    ensures
        r == is_blacklisted(*row, user),
{
    let mut id = String::new();
    push_decimal(&mut id, user);
    assert(id@ =~= decimal_text(user as nat));
    let mut i: usize = 0;
    while i < row.blacklisted_users.len()
        invariant
            i <= row.blacklisted_users@.len(),
            id@ == decimal_text(user as nat),
            forall|k: int| 0 <= k < i ==> row.blacklisted_users@[k]@ != decimal_text(user as nat),
        decreases row.blacklisted_users@.len() - i,
    {
        if same_text(row.blacklisted_users[i].as_str(), id.as_str()) {
            return true;
        }
        i = i + 1;
    }
    false
}

fn check_policy(row: &InviteSettings, user_id: Option<u64>) -> (r: Option<CreateInviteForUserError>)
    ensures
        r == policy_error(*row, user_id),
{
    if row.login_required_for_invite {
        match user_id {
            None => {
                return Some(CreateInviteForUserError::ServerNeedsLoginForInvite {});
            },
            Some(u) => {
                if blacklisted(row, u) {
                    return Some(CreateInviteForUserError::UserIsBlacklisted {});
                }
            },
        }
    }
    if !same_text(row.server_type.as_str(), "approved") && !same_text(row.server_type.as_str(), "certified") {
        return Some(CreateInviteForUserError::ServerTypeNotApprovedOrCertified {});
    }
    if !same_text(row.state.as_str(), "public") {
        return Some(CreateInviteForUserError::ServerStateNotPublic {});
    }
    None
}

/// Decides how a user gets an invite to a server: the server must exist,
/// pass the policy checks unless they are skipped, and hold a usable
/// descriptor. A per-user descriptor leaves the creation to the platform.
pub fn create_invite_for_user(row: Option<&InviteSettings>, user_id: Option<u64>, skip_checks: bool) -> (r: Result<InvitePlan, CreateInviteForUserError>)
    ensures
        match row {
            None => r == Err::<InvitePlan, CreateInviteForUserError>(CreateInviteForUserError::ServerNotFound {}),
            Some(row) => match (if skip_checks { None } else { policy_error(*row, user_id) }) {
                Some(e) => r == Err::<InvitePlan, CreateInviteForUserError>(e),
                None => match descriptor_of(row.invite@) {
                    None => r == Err::<InvitePlan, CreateInviteForUserError>(CreateInviteForUserError::ServerHasInvalidInvite {}),
                    Some(InviteModel::NoInvite) => r == Err::<InvitePlan, CreateInviteForUserError>(CreateInviteForUserError::ServerHasNoInvite {}),
                    Some(InviteModel::InviteUrl(u)) => match r {
                        Ok(InvitePlan::Ready(CreateInviteForUserResult::Invite { url })) => url@ == u,
                        _ => false,
                    },
                    Some(InviteModel::PerUser(c, n, a)) => r == Ok::<InvitePlan, CreateInviteForUserError>(
                        InvitePlan::CreatePerUser { channel_id: c, max_uses: n, max_age: a },
                    ),
                },
            },
        },
{
    let row = match row {
        Some(row) => row,
        None => {
            return Err(CreateInviteForUserError::ServerNotFound {});
        },
    };
    if !skip_checks {
        match check_policy(row, user_id) {
            Some(e) => {
                return Err(e);
            },
            None => {},
        }
    }
    match InviteDescriptor::parse(row.invite.as_str()) {
        None => Err(CreateInviteForUserError::ServerHasInvalidInvite {}),
        Some(InviteDescriptor::NoInvite) => Err(CreateInviteForUserError::ServerHasNoInvite {}),
        Some(InviteDescriptor::InviteUrl(url)) => Ok(InvitePlan::Ready(CreateInviteForUserResult::Invite { url })),
        Some(InviteDescriptor::PerUser { channel_id, max_uses, max_age }) => Ok(
            InvitePlan::CreatePerUser { channel_id, max_uses, max_age },
        ),
    }
}

/// The audit-log reason of an invite created for a user.
pub fn audit_reason(user_id: Option<u64>) -> (r: String)
    ensures
        r@ == match user_id {
            Some(u) => "Invite created for user "@ + decimal_text(u as nat),
            None => "Invite created for anonymous user"@,
        },
{
    match user_id {
        Some(u) => {
            let mut s = String::from_str("Invite created for user ");
            push_decimal(&mut s, u);
            s
        },
        None => String::from_str("Invite created for anonymous user"),
    }
}

/// The kind of invite a user picks.
#[derive(Clone, Copy, Debug, PartialEq, Eq, Structural)]
pub enum InviteKind {
    InviteUrl,
    PerUser,
    NoInvite,
}

/// Why no invite was set up.
#[derive(Clone, Copy, Debug, PartialEq, Eq, Structural)]
pub enum InviteSetupError {
    Cancelled,
    InvalidChoice,
    ChoiceTimedOut,
    /// The link does not lead to a platform invite.
    InvalidUrl,
    /// The invite expires within 30 days.
    ExpiryTooShort,
    /// The invite expires.
    NotPermanent,
    InvalidChannelId,
    /// The channel is not a channel of a server.
    NotGuildChannel,
    /// The channel belongs to another server.
    ForeignChannel,
    InvalidNumber,
}

/// Where a channel lives.
#[derive(Clone, Copy, Debug, PartialEq, Eq, Structural)]
pub enum ChannelPlace {
    Private,
    Guild(u64),
    Other,
}

/// Reads the button pressed on the invite-kind prompt.
pub fn invite_choice(component_id: Option<&str>) -> (r: Result<InviteKind, InviteSetupError>)
    ensures
        r == match component_id {
            None => Err(InviteSetupError::ChoiceTimedOut),
            Some(id) => if id@ == "cancel"@ {
                Err(InviteSetupError::Cancelled)
            } else if id@ == "invite_url"@ {
                Ok(InviteKind::InviteUrl)
            } else if id@ == "per_user"@ {
                Ok(InviteKind::PerUser)
            } else if id@ == "none"@ {
                Ok(InviteKind::NoInvite)
            } else {
                Err(InviteSetupError::InvalidChoice)
            },
        },
{
    match component_id {
        None => Err(InviteSetupError::ChoiceTimedOut),
        Some(id) => if same_text(id, "cancel") {
            Err(InviteSetupError::Cancelled)
        } else if same_text(id, "invite_url") {
            Ok(InviteKind::InviteUrl)
        } else if same_text(id, "per_user") {
            Ok(InviteKind::PerUser)
        } else if same_text(id, "none") {
            Ok(InviteKind::NoInvite)
        } else {
            Err(InviteSetupError::InvalidChoice)
        },
    }
}

/// The invite code of the address an invite link leads to: the address
/// must be the platform's invite address, and the code is its last path
/// segment.
pub fn invite_code(final_url: &str) -> (r: Result<String, InviteSetupError>)
    ensures
        match r {
            Ok(code) => (begins_with(final_url@, "https://discord.com/invite/"@) || begins_with(
                final_url@,
                "https://discord.gg"@,
            )) && code@ == last_segment(final_url@, '/'),
            Err(e) => e == InviteSetupError::InvalidUrl && !begins_with(final_url@, "https://discord.com/invite/"@)
                && !begins_with(final_url@, "https://discord.gg"@),
        },
{
    if !starts_with(final_url, "https://discord.com/invite/") && !starts_with(final_url, "https://discord.gg") {
        return Err(InviteSetupError::InvalidUrl);
    }
    Ok(String::from_str(after_last(final_url, '/')))
}

/// Checks that an invite never expires; `days_left` is the number of whole
/// days until it does, if it does.
pub fn check_invite_expiry(days_left: Option<i64>) -> (r: Result<(), InviteSetupError>)
    ensures
        r == match days_left {
            None => Ok(()),
            Some(d) => if d < 30 {
                Err(InviteSetupError::ExpiryTooShort)
            } else {
                Err(InviteSetupError::NotPermanent)
            },
        },
{
    match days_left {
        None => Ok(()),
        Some(d) => if d < 30 {
            Err(InviteSetupError::ExpiryTooShort)
        } else {
            Err(InviteSetupError::NotPermanent)
        },
    }
}

/// Reads the channel id of the per-user form.
pub fn channel_field(s: &str) -> (r: Result<u64, InviteSetupError>)
    ensures
        r == match parsed_id(s@) {
            Some(c) => Ok(c),
            None => Err(InviteSetupError::InvalidChannelId),
        },
{
    match parse_channel_id(s) {
        Some(c) => Ok(c),
        None => Err(InviteSetupError::InvalidChannelId),
    }
}

/// The per-user descriptor from the form, once the channel was found: it
/// must be a channel of this server, and the use count and lifetime
/// must be numbers that fit.
pub fn per_user_from_form(channel_id: u64, place: ChannelPlace, guild_id: u64, max_uses: &str, max_age: &str) -> (r: Result<
    InviteDescriptor,
    InviteSetupError,
>)
    ensures
        match place {
            ChannelPlace::Guild(g) => if g != guild_id {
                r == Err::<InviteDescriptor, InviteSetupError>(InviteSetupError::ForeignChannel)
            } else {
                match (parsed_up_to(max_uses@, u8::MAX as nat), parsed_up_to(max_age@, u32::MAX as nat)) {
                    (Some(u), Some(a)) => r matches Ok(d) && d@ == InviteModel::PerUser(channel_id, u as u8, a as u32),
                    _ => r == Err::<InviteDescriptor, InviteSetupError>(InviteSetupError::InvalidNumber),
                }
            },
            _ => r == Err::<InviteDescriptor, InviteSetupError>(InviteSetupError::NotGuildChannel),
        },
{
    match place {
        ChannelPlace::Guild(g) => {
            if g != guild_id {
                return Err(InviteSetupError::ForeignChannel);
            }
        },
        _ => {
            return Err(InviteSetupError::NotGuildChannel);
        },
    }
    let uses = match parse_u8(max_uses) {
        Some(u) => u,
        None => {
            return Err(InviteSetupError::InvalidNumber);
        },
    };
    let age = match parse_u32(max_age) {
        Some(a) => a,
        None => {
            return Err(InviteSetupError::InvalidNumber);
        },
    };
    Ok(InviteDescriptor::PerUser { channel_id, max_uses: uses, max_age: age })
}

} // verus!
