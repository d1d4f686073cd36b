//! Decisions of the downstream directory listing that runs once a token is
//! held: classifying mailbox purposes, filtering users that have a mail
//! address, and converting between the wire shape and the domain types.
//! The Graph HTTP calls themselves are I/O and live outside the crate.

use vstd::prelude::*;

verus! {

/// A mailbox's purpose as the directory reports it.
#[derive(Debug, Clone, Copy, PartialEq, Eq, Structural)]
pub enum UserPurpose {
    User,
    Linked,
    Shared,
    Room,
    Equipment,
    Others,
    UnknownFutureValue,
}

/// The strings the directory uses for mailbox purposes.
pub open spec fn is_known_purpose(s: Seq<char>) -> bool {
    ||| s == "user"@
    ||| s == "linked"@
    ||| s == "shared"@
    ||| s == "room"@
    ||| s == "equipment"@
    ||| s == "others"@
    ||| s == "unknownFutureValue"@
}

pub open spec fn purpose_of(s: Seq<char>) -> UserPurpose {
    if s == "user"@ {
        UserPurpose::User
    } else if s == "linked"@ {
        UserPurpose::Linked
    } else if s == "shared"@ {
        UserPurpose::Shared
    } else if s == "room"@ {
        UserPurpose::Room
    } else if s == "equipment"@ {
        UserPurpose::Equipment
    } else if s == "others"@ {
        UserPurpose::Others
    } else {
        UserPurpose::UnknownFutureValue
    }
}

impl UserPurpose {
    /// Maps the directory's string to a purpose. An unknown string is
    /// excluded by the precondition; a caller with untrusted input checks
    /// the string first and fails its own way.
    pub fn from_str(s: &str) -> (r: UserPurpose)
        requires
            is_known_purpose(s@),
        ensures
            r == purpose_of(s@),
    {
        if crate::util::str_eq(s, "user") {
            UserPurpose::User
        } else if crate::util::str_eq(s, "linked") {
            UserPurpose::Linked
        } else if crate::util::str_eq(s, "shared") {
            UserPurpose::Shared
        } else if crate::util::str_eq(s, "room") {
            UserPurpose::Room
        } else if crate::util::str_eq(s, "equipment") {
            UserPurpose::Equipment
        } else if crate::util::str_eq(s, "others") {
            UserPurpose::Others
        } else {
            UserPurpose::UnknownFutureValue
        }
    }
}

/// A directory user as the listing returns it.
#[derive(Debug, Clone, PartialEq, Eq)]
pub struct MsGraphUser {
    pub id: String,
    pub display_name: Option<String>,
    pub mail: Option<String>,
}

/// A user kept for the report: purpose `user`, with a mail address.
#[derive(Debug, Clone, PartialEq, Eq)]
pub struct User {
    pub id: String,
    pub display_name: Option<String>,
    pub mail: String,
}

/// A shared mailbox kept for the report: purpose `shared`, with an address.
#[derive(Debug, Clone, PartialEq, Eq)]
pub struct SharedMailbox {
    pub id: String,
    pub display_name: Option<String>,
    pub mail: String,
}

/// Conversion from the directory's user shape; only callable for users that
/// have a mail address.
pub trait FromMsGraphUser: Sized {
    fn from_ms_graph_user(user: MsGraphUser) -> (r: Self)
        requires
            user.mail is Some,
    ;
}

impl FromMsGraphUser for User {
    fn from_ms_graph_user(user: MsGraphUser) -> (r: User)
        ensures
            r.id == user.id,
            r.display_name == user.display_name,
            Some(r.mail) == user.mail,
    {
        let MsGraphUser { id, display_name, mail } = user;
        match mail {
            Some(mail) => User { id, display_name, mail },
            None => {
                proof {
                    assert(false);
                }
                User { id, display_name, mail: String::new() }
            },
        }
    }
}

impl FromMsGraphUser for SharedMailbox {
    fn from_ms_graph_user(user: MsGraphUser) -> (r: SharedMailbox)
        ensures
            r.id == user.id,
            r.display_name == user.display_name,
            Some(r.mail) == user.mail,
    {
        let MsGraphUser { id, display_name, mail } = user;
        match mail {
            Some(mail) => SharedMailbox { id, display_name, mail },
            None => {
                proof {
                    assert(false);
                }
                SharedMailbox { id, display_name, mail: String::new() }
            },
        }
    }
}

/// The subsequence of listed users that have a mail address, in order.
pub open spec fn users_with_mail(s: Seq<MsGraphUser>) -> Seq<MsGraphUser>
    decreases s.len(),
{
    if s.len() == 0 {
        Seq::empty()
    } else if s[0].mail is Some {
        seq![s[0]] + users_with_mail(s.drop_first())
    } else {
        users_with_mail(s.drop_first())
    }
}

/// Keeps exactly the listed users that have a mail address, in order.
pub fn filter_users_with_mail(users: Vec<MsGraphUser>) -> (r: Vec<MsGraphUser>)
    ensures
        r@ == users_with_mail(users@),
{
    let mut users = users;
    let mut r: Vec<MsGraphUser> = Vec::new();
    let ghost uv = users@;
    proof {
        assert(uv.skip(0) =~= uv);
        assert(Seq::<MsGraphUser>::empty() + users_with_mail(uv) =~= users_with_mail(uv));
    }
    while users.len() > 0
        invariant
            users@.len() <= uv.len(),
            users@ == uv.skip(uv.len() - users@.len()),
            users_with_mail(uv) == r@ + users_with_mail(uv.skip(uv.len() - users@.len())),
        decreases users@.len(),
    {
        let ghost i = uv.len() - users@.len();
        let u = users.remove(0);
        proof {
            assert(u == uv[i]);
            assert(users@ =~= uv.skip(i + 1));
            assert(uv.skip(i).drop_first() =~= uv.skip(i + 1));
            assert(uv.skip(i)[0] == uv[i]);
        }
        if u.mail.is_some() {
            r.push(u);
            proof {
                assert(r@ + users_with_mail(uv.skip(i + 1)) =~= users_with_mail(uv));
            }
        }
    }
    proof {
        assert(uv.skip(uv.len() as int) =~= Seq::<MsGraphUser>::empty());
        assert(r@ + users_with_mail(uv.skip(uv.len() as int)) =~= r@);
    }
    r
}

/// How the purpose lookup's HTTP status is handled.
#[derive(Debug, Clone, Copy, PartialEq, Eq, Structural)]
pub enum PurposeLookup {
    /// A success status: the body carries the purpose string.
    UseBody,
    /// The directory has no purpose for this user: treated as no purpose.
    NotFound,
    /// Any other status: the lookup failed.
    Failed,
}

/// Classifies the status of a purpose lookup: 404 means no purpose, any
/// other non-success status is a failure.
pub fn classify_purpose_status(status: u16) -> (r: PurposeLookup)
    ensures
        200 <= status < 300 ==> r == PurposeLookup::UseBody,
        status == 404 ==> r == PurposeLookup::NotFound,
        !(200 <= status < 300) && status != 404 ==> r == PurposeLookup::Failed,
{
    if 200 <= status && status < 300 {
        PurposeLookup::UseBody
    } else if status == 404 {
        PurposeLookup::NotFound
    } else {
        PurposeLookup::Failed
    }
}

/// Where one listed user goes in the report.
#[derive(Debug, Clone, Copy, PartialEq, Eq, Structural)]
pub enum UserDestination {
    /// Purpose `user`: kept as a [`User`].
    Member,
    /// Purpose `shared`: kept as a [`SharedMailbox`].
    Shared,
    /// Any other purpose, or none: not reported.
    Skipped,
}

/// The routing decision of the listing loop: only `user` and `shared`
/// purposes are kept.
pub fn route_user(purpose: Option<UserPurpose>) -> (r: UserDestination)
    ensures
        purpose == Some(UserPurpose::User) ==> r == UserDestination::Member,
        purpose == Some(UserPurpose::Shared) ==> r == UserDestination::Shared,
        purpose != Some(UserPurpose::User) && purpose != Some(UserPurpose::Shared) ==> r
            == UserDestination::Skipped,
{
    match purpose {
        Some(UserPurpose::User) => UserDestination::Member,
        Some(UserPurpose::Shared) => UserDestination::Shared,
        _ => UserDestination::Skipped,
    }
}

} // verus!
