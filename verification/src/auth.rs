//! The entry handshake: the version probe and the login/signup exchange.
//! Both run on the first message of a connection and produce exactly one
//! reply; only a successful login or signup hands an authenticated
//! identity to the session that follows.

use crate::messages::{EntryPoint, EntryResponse, EntryResponseV};
use crate::rng::fresh_uuid;
use crate::store::{Database, LoginFailReason, Player, PlayerRecord};
use vstd::prelude::*;
use vstd::string::StringExecFns;

verus! {

/// The one client version this server accepts.
pub open spec fn spec_accepted_version() -> Seq<char> {
    "0.1.0"@
}

/// The message of the day sent after a successful handshake.
pub open spec fn spec_motd() -> Seq<char> {
    "Welcome to SnD! We are still in ALPHA, so expect some bugs!"@
}

pub fn accepted_version() -> (r: String)
    ensures
        r@ == spec_accepted_version(),
{
    String::from_str("0.1.0")
}

pub fn motd() -> (r: String)
    ensures
        r@ == spec_motd(),
{
    String::from_str("Welcome to SnD! We are still in ALPHA, so expect some bugs!")
}

/// A character allowed in a username: a letter, a digit or an underscore.
pub open spec fn is_name_char(c: char) -> bool {
    (65 <= c as u32 <= 90) || (97 <= c as u32 <= 122) || (48 <= c as u32 <= 57) || c as u32 == 95
}

/// A valid username: 3 to 16 characters, all letters, digits or
/// underscores.
pub open spec fn spec_valid_username(s: Seq<char>) -> bool {
    &&& 3 <= s.len() <= 16
    &&& forall|i: int| 0 <= i < s.len() ==> is_name_char(#[trigger] s[i])
}

/// A character allowed in a password: printable ASCII, which excludes the
/// space, and not the single quote.
pub open spec fn is_password_char(c: char) -> bool {
    33 <= c as u32 <= 126 && c as u32 != 39
}

/// A valid password: 4 to 32 characters, all printable ASCII with no
/// space or quote.
pub open spec fn spec_valid_password(s: Seq<char>) -> bool {
    &&& 4 <= s.len() <= 32
    &&& forall|i: int| 0 <= i < s.len() ==> is_password_char(#[trigger] s[i])
}

/// The refusal reported for a username, character check first, then the
/// length bounds; nothing for a valid one.
pub open spec fn spec_username_error(s: Seq<char>) -> Option<Seq<char>> {
    if !(forall|i: int| 0 <= i < s.len() ==> is_name_char(#[trigger] s[i])) {
        Some("Username must be only letters, numbers, and underscores"@)
    } else if s.len() < 3 {
        Some("Username is too short"@)
    } else if s.len() > 16 {
        Some("Username is too long"@)
    } else {
        None
    }
}

/// The refusal reported for a password, character check first, then the
/// length bounds; nothing for a valid one.
pub open spec fn spec_password_error(s: Seq<char>) -> Option<Seq<char>> {
    if !(forall|i: int| 0 <= i < s.len() ==> is_password_char(#[trigger] s[i])) {
        Some("Invalid Password: Password must be plain ascii with no spaces or ''s"@)
    } else if s.len() < 4 {
        Some("Password is too short"@)
    } else if s.len() > 32 {
        Some("Password is too long"@)
    } else {
        None
    }
}

/// Check a requested username, reporting the specific refusal, if any.
pub fn validate_username(name: &String) -> (r: Option<String>)
    ensures
        r is None <==> spec_valid_username(name@),
        r matches Some(m) ==> Some(m@) == spec_username_error(name@),
{
    let s = name.as_str();
    let n = s.unicode_len();
    let mut i: usize = 0;
    while i < n
        invariant
            n == s@.len(),
            i <= n,
            s@ == name@,
            forall|k: int| 0 <= k < i ==> is_name_char(#[trigger] s@[k]),
        decreases n - i,
    {
        let c = s.get_char(i);
        let u = c as u32;
        if !((65 <= u && u <= 90) || (97 <= u && u <= 122) || (48 <= u && u <= 57) || u == 95) {
            return Some(
                String::from_str("Username must be only letters, numbers, and underscores"),
            );
        }
        i = i + 1;
    }
    if n < 3 {
        Some(String::from_str("Username is too short"))
    } else if n > 16 {
        Some(String::from_str("Username is too long"))
    } else {
        None
    }
}

/// Check a requested password, reporting the specific refusal, if any.
pub fn validate_password(passwd: &String) -> (r: Option<String>)
    ensures
        r is None <==> spec_valid_password(passwd@),
        r matches Some(m) ==> Some(m@) == spec_password_error(passwd@),
{
    let s = passwd.as_str();
    let n = s.unicode_len();
    let mut i: usize = 0;
    while i < n
        invariant
            n == s@.len(),
            i <= n,
            s@ == passwd@,
            forall|k: int| 0 <= k < i ==> is_password_char(#[trigger] s@[k]),
        decreases n - i,
    {
        let c = s.get_char(i);
        let u = c as u32;
        if !(33 <= u && u <= 126 && u != 39) {
            return Some(
                String::from_str(
                    "Invalid Password: Password must be plain ascii with no spaces or ''s",
                ),
            );
        }
        i = i + 1;
    }
    if n < 4 {
        Some(String::from_str("Password is too short"))
    } else if n > 32 {
        Some(String::from_str("Password is too long"))
    } else {
        None
    }
}

/// How a handshake ends: a version probe is answered and the connection
/// closes; a refused attempt is answered and the connection closes; an
/// accepted attempt is answered and a session starts for the identity.
pub enum EntryOutcome {
    Ping(EntryResponse),
    Reject(EntryResponse),
    Accept(u128, EntryResponse),
}

/// Answer a version probe: acknowledge a matching version with the
/// server's own, refuse any other.
pub fn answer_version_probe(ver: &String) -> (r: EntryResponse)
    ensures
        ver@ == spec_accepted_version() ==> r@ == EntryResponseV::Version(spec_accepted_version()),
        ver@ != spec_accepted_version() ==> r@ == EntryResponseV::Error(
            "Invalid version: "@ + spec_accepted_version(),
        ),
{
    let accepted = accepted_version();
    if *ver == accepted {
        EntryResponse::Version(accepted)
    } else {
        EntryResponse::Error(String::from_str("Invalid version: ").concat(accepted.as_str()))
    }
}

/// Register a new player under a fresh identifier. Succeeds exactly when
/// the identifier collides with no existing player; the caller has
/// already checked the username.
pub fn signup_player(db: &mut Database, username: &String, passwd: String, uuid: u128) -> (r: bool)
    requires
        old(db).wf(),
        !old(db).has_username(username@),
    ensures
        final(db).wf(),
        r == !old(db).has_player(uuid),
        !r ==> *final(db) == *old(db),
        r ==> signup_effect(*old(db), *final(db), uuid, username@, passwd@),
{
    let player = Player { uuid, name: username.clone() };
    db.new_player(&player, passwd)
}

/// The store change a successful signup makes: one fresh level-1 record
/// appended, everything else untouched.
pub open spec fn signup_effect(
    pre: Database,
    post: Database,
    uuid: u128,
    name: Seq<char>,
    passwd: Seq<char>,
) -> bool {
    &&& post.players@.len() == pre.players@.len() + 1
    &&& ({
        let rec = post.players@.last();
        &&& post.players@ == pre.players@.push(rec)
        &&& rec.uuid == uuid
        &&& rec.username@ == name
        &&& rec.password@ == passwd
        &&& rec.level == 1
        &&& rec.exp == 0
        &&& rec.steps == 0
        &&& rec.health == 100
        &&& rec.region@ == "Plains of Arenlok"@
        &&& rec.active == false
        &&& post.has_player(uuid)
        &&& post.player_at(uuid) == rec
        &&& post.has_username(name)
        &&& post.player_named(name) == rec
    })
    &&& post.items@ == pre.items@
    &&& forall|u: u128| u != uuid ==> post.has_player(u) == pre.has_player(u)
    &&& forall|n: Seq<char>| n != name ==> post.has_username(n) == pre.has_username(n)
}

/// The store change a completed signup handshake makes: one fresh level-1
/// record appended and immediately bound to the new session, everything
/// else untouched.
pub open spec fn signup_session_effect(
    pre: Database,
    post: Database,
    uuid: u128,
    name: Seq<char>,
    passwd: Seq<char>,
) -> bool {
    &&& post.players@.len() == pre.players@.len() + 1
    &&& ({
        let rec = post.player_at(uuid);
        &&& post.has_player(uuid)
        &&& rec.uuid == uuid
        &&& rec.username@ == name
        &&& rec.password@ == passwd
        &&& rec.level == 1
        &&& rec.exp == 0
        &&& rec.steps == 0
        &&& rec.health == 100
        &&& rec.region@ == "Plains of Arenlok"@
        &&& rec.active == true
        &&& post.has_username(name)
        &&& post.player_named(name) == rec
    })
    &&& post.items@ == pre.items@
    &&& forall|u: u128| u != uuid ==> post.has_player(u) == pre.has_player(u)
    &&& forall|n: Seq<char>| n != name ==> post.has_username(n) == pre.has_username(n)
}

/// The store change a successful login makes: the named player's record
/// is marked active and nothing else changes.
pub open spec fn login_session_effect(pre: Database, post: Database, name: Seq<char>, uuid: u128) -> bool {
    &&& pre.has_username(name)
    &&& uuid == pre.player_named(name).uuid
    &&& Database::player_updated(
        pre,
        post,
        uuid,
        PlayerRecord { active: true, ..pre.player_named(name) },
    )
}

/// Run the handshake on a connection's first message. A version probe is
/// answered and never yields a session. A signup validates the username
/// (characters, then length), the username's availability, and the
/// password, refusing with the specific message and leaving the store
/// untouched; then it registers the player. A login is checked against
/// the stored record. On success of either branch the player's record is
/// marked active, the identity is handed to the session, and the reply is
/// the message of the day.
pub fn handle_entry(db: &mut Database, entry: EntryPoint) -> (r: EntryOutcome)
    requires
        old(db).wf(),
    ensures
        final(db).wf(),
        match entry {
            EntryPoint::Version(v) => {
                &&& *final(db) == *old(db)
                &&& r matches EntryOutcome::Ping(resp) && resp@ == (if v@
                    == spec_accepted_version() {
                    EntryResponseV::Version(spec_accepted_version())
                } else {
                    EntryResponseV::Error("Invalid version: "@ + spec_accepted_version())
                })
            },
            EntryPoint::LoginAttempt(l) => {
                if l.signup {
                    match spec_username_error(l.username@) {
                        Some(m) => *final(db) == *old(db) && (r matches EntryOutcome::Reject(resp)
                            && resp@ == EntryResponseV::Error(m)),
                        None => {
                            if old(db).has_username(l.username@) {
                                *final(db) == *old(db) && (r matches EntryOutcome::Reject(resp)
                                    && resp@ == EntryResponseV::Error("Username already exists"@))
                            } else if spec_password_error(l.passwd@) is Some {
                                *final(db) == *old(db) && (r matches EntryOutcome::Reject(resp)
                                    && resp@ == EntryResponseV::Error(
                                    spec_password_error(l.passwd@)->Some_0,
                                ))
                            } else {
                                match r {
                                    EntryOutcome::Accept(uuid, resp) => {
                                        &&& resp@ == EntryResponseV::Motd(spec_motd())
                                        &&& !old(db).has_player(uuid)
                                        &&& signup_session_effect(
                                            *old(db),
                                            *final(db),
                                            uuid,
                                            l.username@,
                                            l.passwd@,
                                        )
                                    },
                                    EntryOutcome::Reject(resp) => {
                                        &&& *final(db) == *old(db)
                                        &&& resp@ == EntryResponseV::Error(
                                            "Failed to enter data into the database"@,
                                        )
                                    },
                                    EntryOutcome::Ping(_) => false,
                                }
                            }
                        },
                    }
                } else {
                    let known = old(db).has_username(l.username@);
                    let stored = old(db).player_named(l.username@);
                    if !known {
                        *final(db) == *old(db) && (r matches EntryOutcome::Reject(resp) && resp@
                            == EntryResponseV::Error("Invalid User"@))
                    } else if stored.active {
                        *final(db) == *old(db) && (r matches EntryOutcome::Reject(resp) && resp@
                            == EntryResponseV::Error("Already Online"@))
                    } else if stored.password@ != l.passwd@ {
                        *final(db) == *old(db) && (r matches EntryOutcome::Reject(resp) && resp@
                            == EntryResponseV::Error("Invalid Password"@))
                    } else {
                        r matches EntryOutcome::Accept(uuid, resp) && resp@
                            == EntryResponseV::Motd(spec_motd()) && login_session_effect(
                            *old(db),
                            *final(db),
                            l.username@,
                            uuid,
                        )
                    }
                }
            },
        },
{
    match entry {
        EntryPoint::Version(v) => EntryOutcome::Ping(answer_version_probe(&v)),
        EntryPoint::LoginAttempt(l) => {
            if l.signup {
                if let Some(m) = validate_username(&l.username) {
                    return EntryOutcome::Reject(EntryResponse::Error(m));
                }
                if db.player_exists(&l.username) {
                    return EntryOutcome::Reject(
                        EntryResponse::Error(String::from_str("Username already exists")),
                    );
                }
                if let Some(m) = validate_password(&l.passwd) {
                    return EntryOutcome::Reject(EntryResponse::Error(m));
                }
                let uuid = fresh_uuid();
                if !signup_player(db, &l.username, l.passwd, uuid) {
                    return EntryOutcome::Reject(
                        EntryResponse::Error(
                            String::from_str("Failed to enter data into the database"),
                        ),
                    );
                }
                let activated = db.set_player_active(&uuid);
                proof {
                    assert(activated);
                }
                EntryOutcome::Accept(uuid, EntryResponse::Motd(motd()))
            } else {
                match db.validate_login(l.username.clone(), l.passwd.clone()) {
                    Ok(uuid) => {
                        proof {
                            db.lemma_named_is_at(l.username@);
                        }
                        let activated = db.set_player_active(&uuid);
                        proof {
                            assert(activated);
                        }
                        EntryOutcome::Accept(uuid, EntryResponse::Motd(motd()))
                    },
                    Err(LoginFailReason::Unrecognized) => EntryOutcome::Reject(
                        EntryResponse::Error(String::from_str("Invalid User")),
                    ),
                    Err(LoginFailReason::Unauthorized) => EntryOutcome::Reject(
                        EntryResponse::Error(String::from_str("Invalid Password")),
                    ),
                    Err(LoginFailReason::AlreadyOnline) => EntryOutcome::Reject(
                        EntryResponse::Error(String::from_str("Already Online")),
                    ),
                }
            }
        },
    }
}

/// One session per identity: once a handshake has bound a session to the
/// player named `name` (the record is active), `validate_login` refuses
/// every further attempt for that username with `AlreadyOnline`, whatever
/// password it carries — its contract returns that error exactly when the
/// named record is active.
pub proof fn lemma_second_login_already_online(pre: Database, post: Database, name: Seq<char>)
    requires
        pre.wf(),
        pre.has_username(name),
        login_session_effect(pre, post, name, pre.player_named(name).uuid),
    ensures
        post.has_username(name),
        post.player_named(name).active,
{
    let i = choose|i: int|
        0 <= i < pre.players@.len() && (#[trigger] pre.players@[i]).username@ == name;
    assert(pre.players@[i].username@ == name);
}

} // verus!
