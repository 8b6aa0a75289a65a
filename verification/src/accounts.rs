//! Durable username/password accounts.
use crate::game::{self, timestamp_ms, Timestamp};
use crate::ids::{self, id_text};
use crate::script::{self, Ask, Reply, Request, Run, Script, Stop, Trace};
use crate::store::{self, first_text, Op, Row, Statement};
use crate::text::{self, ascii_lower, characters, same_text, trim};
use vstd::prelude::*;

verus! {

/// Memory of the current password profile, in KiB.
pub const PASSWORD_MEMORY_KIB: u32 = 19_456;

/// Iterations of the current password profile.
pub const PASSWORD_ITERATIONS: u32 = 2;

/// Lanes of the current password profile.
pub const PASSWORD_PARALLELISM: u32 = 1;

/// Account and credential failure.
#[derive(Debug, Clone, Copy, PartialEq, Eq, Structural)]
pub enum AccountError {
    InvalidUsername,
    WeakPassword,
    PasswordHash,
    UsernameTaken,
    /// The stored hash does not use the current profile.
    PasswordUpgradeRequired,
    InvalidCredentials,
    InvalidTimestamp,
}

impl AccountError {
    pub open spec fn message_of(self) -> Seq<char> {
        match self {
            AccountError::InvalidUsername =>
                "username must contain 3 to 32 ASCII letters, numbers, underscores, or hyphens"@,
            AccountError::WeakPassword => "password must contain at least 12 bytes"@,
            AccountError::PasswordHash => "password hashing failed"@,
            AccountError::UsernameTaken => "username is already registered"@,
            AccountError::PasswordUpgradeRequired => "password hash requires a parameter upgrade"@,
            AccountError::InvalidCredentials => "invalid username or password"@,
            AccountError::InvalidTimestamp => "timestamp is outside the supported range"@,
        }
    }

    pub fn message(self) -> (message: String)
        ensures
            message@ == self.message_of(),
    {
        match self {
            AccountError::InvalidUsername =>
                "username must contain 3 to 32 ASCII letters, numbers, underscores, or hyphens".to_owned(),
            AccountError::WeakPassword => "password must contain at least 12 bytes".to_owned(),
            AccountError::PasswordHash => "password hashing failed".to_owned(),
            AccountError::UsernameTaken => "username is already registered".to_owned(),
            AccountError::PasswordUpgradeRequired =>
                "password hash requires a parameter upgrade".to_owned(),
            AccountError::InvalidCredentials => "invalid username or password".to_owned(),
            AccountError::InvalidTimestamp => "timestamp is outside the supported range".to_owned(),
        }
    }
}

/// Whether a character may stand in a username.
pub open spec fn username_char(character: char) -> bool {
    'a' <= character <= 'z' || 'A' <= character <= 'Z' || '0' <= character <= '9' || character
        == '_' || character == '-'
}

/// Whether a trimmed text is a username.
pub open spec fn valid_username(username: Seq<char>) -> bool {
    3 <= username.len() <= 32 && forall|i: int|
        0 <= i < username.len() ==> username_char(#[trigger] username[i])
}

/// The normalized form of a username: trimmed and in lower case.
pub open spec fn normalized_username(username: Seq<char>) -> Option<Seq<char>> {
    if valid_username(text::trimmed(username)) {
        Some(text::ascii_lowered(text::trimmed(username)))
    } else {
        None
    }
}

/// Normalizes a username: 3 to 32 ASCII letters, digits, underscores or hyphens after trimming.
pub fn normalize_username(username: &str) -> (normalized: Result<String, AccountError>)
    ensures
        match normalized {
            Ok(name) => normalized_username(username@) == Some(name@),
            Err(error) => error == AccountError::InvalidUsername && normalized_username(
                username@,
            ) is None,
        },
{
    let trimmed = trim(username);
    let letters = characters(trimmed.as_str());
    if letters.len() < 3 || letters.len() > 32 {
        return Err(AccountError::InvalidUsername);
    }
    let mut at: usize = 0;
    while at < letters.len()
        invariant
            letters@ == trimmed@,
            trimmed@ == text::trimmed(username@),
            at <= trimmed@.len(),
            forall|i: int| 0 <= i < at ==> username_char(#[trigger] trimmed@[i]),
        decreases trimmed@.len() - at,
    {
        let letter: char = letters[at];
        if !(('a' <= letter && letter <= 'z') || ('A' <= letter && letter <= 'Z') || ('0' <= letter
            && letter <= '9') || letter == '_' || letter == '-') {
            assert(!username_char(trimmed@[at as int]));
            return Err(AccountError::InvalidUsername);
        }
        at = at + 1;
    }
    Ok(ascii_lower(trimmed.as_str()))
}

/// A valid username without upper-case letters is its own normalized form.
pub proof fn lower_case_names_stay(name: Seq<char>)
    requires
        valid_username(name),
        forall|i: int| 0 <= i < name.len() ==> text::lower_char(#[trigger] name[i]) == name[i],
    ensures
        normalized_username(name) == Some(name),
{
    assert(username_char(name[0]) && username_char(name[name.len() - 1]));
    assert(text::trimmed_start(name) == name);
    assert(name.last() == name[name.len() - 1]);
    assert(text::trimmed_end(name) == name);
    assert(text::ascii_lowered(name) =~= name);
}

/// A normalized username is its own normalized form.
pub proof fn normalizing_usernames_is_idempotent(username: Seq<char>)
    requires
        normalized_username(username) is Some,
    ensures
        normalized_username(normalized_username(username)->0) == normalized_username(username),
{
    let name = normalized_username(username)->0;
    let trimmed = text::trimmed(username);
    assert forall|i: int| 0 <= i < name.len() implies username_char(#[trigger] name[i])
        && text::lower_char(name[i]) == name[i] by {
        assert(username_char(trimmed[i]));
    }
    lower_case_names_stay(name);
}

/// Texts that differ only in the case of ASCII letters or in surrounding white space normalize to
/// the same username, or are no usernames.
pub proof fn normalizing_usernames_ignores_case(left: Seq<char>, right: Seq<char>)
    requires
        text::ascii_lowered(text::trimmed(left)) == text::ascii_lowered(text::trimmed(right)),
    ensures
        normalized_username(left) == normalized_username(right),
{
    let one = text::trimmed(left);
    let other = text::trimmed(right);
    let lowered = text::ascii_lowered(one);
    assert(lowered.len() == one.len() && lowered.len() == other.len());
    assert forall|i: int| 0 <= i < one.len() implies username_char(#[trigger] one[i])
        == username_char(other[i]) by {
        assert(lowered[i] == text::lower_char(one[i]));
        assert(lowered[i] == text::lower_char(other[i]));
    }
    if valid_username(one) {
        assert forall|i: int| 0 <= i < other.len() implies username_char(#[trigger] other[i]) by {
            assert(username_char(one[i]));
        }
    }
    if valid_username(other) {
        assert forall|i: int| 0 <= i < one.len() implies username_char(#[trigger] one[i]) by {
            assert(username_char(other[i]));
        }
    }
}

/// One cost parameter of a stored hash: its name, and its value where that is a decimal number.
pub type CostParameter = (String, Option<u32>);

/// The parts of a stored password hash that name how it was made.
pub struct HashProfile {
    pub algorithm: String,
    pub version: Option<u32>,
    pub parameters: Vec<CostParameter>,
}

/// The mathematical content of a [`HashProfile`].
#[verifier::ext_equal]
pub struct ProfileParts {
    pub algorithm: Seq<char>,
    pub version: Option<u32>,
    pub parameters: Seq<(Seq<char>, Option<u32>)>,
}

pub open spec fn parameters_view(parameters: Seq<CostParameter>) -> Seq<
    (Seq<char>, Option<u32>),
> {
    Seq::new(parameters.len(), |i: int| (parameters[i].0@, parameters[i].1))
}

impl View for HashProfile {
    type V = ProfileParts;

    open spec fn view(&self) -> ProfileParts {
        ProfileParts {
            algorithm: self.algorithm@,
            version: self.version,
            parameters: parameters_view(self.parameters@),
        }
    }
}

/// The profile that `password_hash::PasswordHash::new` reads from a stored hash.
pub uninterp spec fn hash_profile(stored: Seq<char>) -> Option<ProfileParts>;

/// `argon2::PasswordHash::new`: the algorithm, version and cost parameters that a PHC string
/// names, or nothing where the text is not one. A function of the text alone.
#[verifier::external_body]
fn read_profile(stored: &str) -> (profile: Option<HashProfile>)
    ensures
        match profile {
            Some(profile) => hash_profile(stored@) == Some(profile@),
            None => hash_profile(stored@) is None,
        },
{
    argon2::PasswordHash::new(stored).ok().map(|hash| HashProfile {
        algorithm: hash.algorithm.as_str().to_owned(),
        version: hash.version,
        parameters: hash
            .params
            .iter()
            .map(|(name, value)| (name.as_str().to_owned(), value.decimal().ok()))
            .collect(),
    })
}

/// The most lanes that a hash can be made with.
pub const MAX_PASSWORD_PARALLELISM: u32 = 16_777_215;

/// Whether the last parallelism that is named is more than the algorithm can have.
pub open spec fn too_parallel(parameters: Seq<(Seq<char>, Option<u32>)>) -> bool
    decreases parameters.len(),
{
    if parameters.len() == 0 {
        false
    } else if parameters.last().0 == "p"@ {
        parameters.last().1 matches Some(lanes) && lanes > MAX_PASSWORD_PARALLELISM
    } else {
        too_parallel(parameters.drop_last())
    }
}

/// Whether `argon2` makes the stored hash again out of a password.
pub uninterp spec fn password_match(password: Seq<char>, stored: Seq<char>) -> bool;

/// `argon2::Argon2::verify_password` on a PHC string: whether the password gives the stored hash
/// again under the parameters that the hash names. A function of the two texts alone. A number of
/// lanes out of range overflows inside `argon2::Params::new`.
#[verifier::external_body]
fn check_password(password: &str, stored: &str) -> (matching: bool)
    requires
        hash_profile(stored@) matches Some(profile) && !too_parallel(profile.parameters),
    ensures
        matching == password_match(password@, stored@),
{
    argon2::PasswordHash::new(stored).is_ok_and(|hash| {
        argon2::PasswordVerifier::verify_password(
            &argon2::Argon2::default(),
            password.as_bytes(),
            &hash,
        )
        .is_ok()
    })
}

/// What a stored hash says to a password: whether they match, or nothing where the stored text is
/// not a password hash. A hash that no parameters could have made matches no password.
pub open spec fn password_check(password: Seq<char>, stored: Seq<char>) -> Option<bool> {
    match hash_profile(stored) {
        Some(profile) => Some(
            !too_parallel(profile.parameters) && password_match(password, stored),
        ),
        None => None,
    }
}

/// The parameters of a hash in the order in which they are written.
pub open spec fn written_parameters(memory: u32, iterations: u32, parallelism: u32) -> Seq<
    (Seq<char>, Option<u32>),
> {
    seq![("m"@, Some(memory)), ("t"@, Some(iterations)), ("p"@, Some(parallelism))]
}

/// `argon2::Argon2::hash_password` with Argon2id version 19 and a fresh random salt. It refuses
/// passwords of more than 4294967295 bytes and no others; the hash matches the password and names
/// its own parameters. Which salt was drawn, and so which of the matching hashes comes out, is left
/// open.
#[verifier::external_body]
fn salted_hash(password: &str, memory: u32, iterations: u32, parallelism: u32) -> (hash: Option<
    String,
>)
    requires
        1 <= iterations,
        1 <= parallelism,
        8 * parallelism <= memory <= 1_048_576,
    ensures
        hash is Some <==> byte_len(password@) <= 4_294_967_295,
        hash matches Some(hash) ==> {
            &&& password_match(password@, hash@)
            &&& hash_profile(hash@) == Some(
                ProfileParts {
                    algorithm: "argon2id"@,
                    version: Some(19u32),
                    parameters: written_parameters(memory, iterations, parallelism),
                },
            )
        },
{
    let salt = argon2::password_hash::SaltString::generate(
        &mut argon2::password_hash::rand_core::OsRng,
    );
    let params = argon2::Params::new(memory, iterations, parallelism, None).ok()?;
    let hasher = argon2::Argon2::new(
        argon2::Algorithm::Argon2id,
        argon2::Version::V0x13,
        params,
    );
    argon2::PasswordHasher::hash_password(&hasher, password.as_bytes(), &salt)
        .ok()
        .map(|hash| hash.to_string())
}

/// The number of bytes of a text.
pub open spec fn byte_len(text: Seq<char>) -> int {
    vstd::utf8::encode_utf8(text).len() as int
}

/// The value of the first parameter of this name, where it is a number.
pub open spec fn parameter(parameters: Seq<(Seq<char>, Option<u32>)>, name: Seq<char>) -> Option<
    u32,
>
    decreases parameters.len(),
{
    if parameters.len() == 0 {
        None
    } else if parameters[0].0 == name {
        parameters[0].1
    } else {
        parameter(parameters.skip(1), name)
    }
}

fn find_parameter(parameters: &Vec<CostParameter>, name: &str) -> (value: Option<u32>)
    ensures
        value == parameter(parameters_view(parameters@), name@),
{
    let ghost all = parameters_view(parameters@);
    let mut at: usize = 0;
    assert(all.skip(0) =~= all);
    while at < parameters.len()
        invariant
            at <= parameters@.len(),
            all == parameters_view(parameters@),
            parameter(all, name@) == parameter(all.skip(at as int), name@),
        decreases parameters@.len() - at,
    {
        assert(all.skip(at as int)[0] == all[at as int]);
        assert(all.skip(at as int).skip(1) =~= all.skip(at + 1));
        if same_text(parameters[at].0.as_str(), name) {
            return parameters[at].1;
        }
        at = at + 1;
    }
    None
}

fn is_too_parallel(parameters: &Vec<CostParameter>) -> (refused: bool)
    ensures
        refused == too_parallel(parameters_view(parameters@)),
{
    let ghost all = parameters_view(parameters@);
    let mut end: usize = parameters.len();
    assert(all.take(end as int) =~= all);
    while end > 0
        invariant
            end <= parameters@.len(),
            all == parameters_view(parameters@),
            too_parallel(all) == too_parallel(all.take(end as int)),
        decreases end,
    {
        assert(all.take(end as int).last() == all[end - 1]);
        assert(all.take(end as int).drop_last() =~= all.take(end - 1));
        end = end - 1;
        if same_text(parameters[end].0.as_str(), "p") {
            return match parameters[end].1 {
                Some(lanes) => lanes > MAX_PASSWORD_PARALLELISM,
                None => false,
            };
        }
    }
    false
}

/// Whether a hash with these parts was made as hashes are made now.
pub open spec fn is_current(profile: ProfileParts) -> bool {
    &&& profile.algorithm == "argon2id"@
    &&& profile.version == Some(19u32)
    &&& parameter(profile.parameters, "m"@) == Some(PASSWORD_MEMORY_KIB)
    &&& parameter(profile.parameters, "t"@) == Some(PASSWORD_ITERATIONS)
    &&& parameter(profile.parameters, "p"@) == Some(PASSWORD_PARALLELISM)
}

proof fn written_parameters_are_found(memory: u32, iterations: u32, parallelism: u32)
    ensures
        parameter(written_parameters(memory, iterations, parallelism), "m"@) == Some(memory),
        parameter(written_parameters(memory, iterations, parallelism), "t"@) == Some(iterations),
        parameter(written_parameters(memory, iterations, parallelism), "p"@) == Some(parallelism),
        parallelism <= MAX_PASSWORD_PARALLELISM ==> !too_parallel(
            written_parameters(memory, iterations, parallelism),
        ),
{
    let parameters = written_parameters(memory, iterations, parallelism);
    reveal_strlit("m");
    reveal_strlit("t");
    reveal_strlit("p");
    assert("m"@[0] == 'm' && "t"@[0] == 't' && "p"@[0] == 'p');
    reveal_with_fuel(parameter, 4);
    assert(parameters.skip(1)[0] == parameters[1]);
    assert(parameters.skip(1).skip(1)[0] == parameters[2]);
}

/// Creates an Argon2id password hash with a fresh salt.
///
/// Passwords of fewer than twelve bytes are refused, and so are those too long for the algorithm.
/// Every hash that comes out matches its password and was made as hashes are made now.
pub fn hash_password(password: &str) -> (hash: Result<String, AccountError>)
    ensures
        match hash {
            Ok(hash) => 12 <= byte_len(password@) <= 4_294_967_295 && password_check(
                password@,
                hash@,
            ) == Some(true) && !needs_upgrade(hash@),
            Err(error) => error == if byte_len(password@) < 12 {
                AccountError::WeakPassword
            } else {
                AccountError::PasswordHash
            },
        },
        hash is Ok <==> 12 <= byte_len(password@) <= 4_294_967_295,
{
    proof {
        written_parameters_are_found(
            PASSWORD_MEMORY_KIB,
            PASSWORD_ITERATIONS,
            PASSWORD_PARALLELISM,
        );
    }
    if password.as_bytes().len() < 12 {
        return Err(AccountError::WeakPassword);
    }
    match salted_hash(
        password,
        PASSWORD_MEMORY_KIB,
        PASSWORD_ITERATIONS,
        PASSWORD_PARALLELISM,
    ) {
        Some(hash) => Ok(hash),
        None => Err(AccountError::PasswordHash),
    }
}

/// Verifies a password against a stored hash.
pub fn verify_password(password: &str, stored_hash: &str) -> (matching: Result<bool, AccountError>)
    ensures
        matching == (match password_check(password@, stored_hash@) {
            Some(matching) => Ok::<bool, AccountError>(matching),
            None => Err(AccountError::PasswordHash),
        }),
{
    match read_profile(stored_hash) {
        Some(profile) => if is_too_parallel(&profile.parameters) {
            Ok(false)
        } else {
            Ok(check_password(password, stored_hash))
        },
        None => Err(AccountError::PasswordHash),
    }
}

/// Whether a stored hash was not made as hashes are made now.
pub open spec fn needs_upgrade(stored: Seq<char>) -> bool {
    match hash_profile(stored) {
        Some(profile) => !is_current(profile),
        None => true,
    }
}

pub fn password_needs_upgrade(stored_hash: &str) -> (needed: bool)
    ensures
        needed == needs_upgrade(stored_hash@),
{
    match read_profile(stored_hash) {
        Some(profile) => !(same_text(profile.algorithm.as_str(), "argon2id") && profile.version
            == Some(19u32) && find_parameter(&profile.parameters, "m") == Some(PASSWORD_MEMORY_KIB)
            && find_parameter(&profile.parameters, "t") == Some(PASSWORD_ITERATIONS)
            && find_parameter(&profile.parameters, "p") == Some(PASSWORD_PARALLELISM)),
        None => true,
    }
}

pub open spec fn insert_user_op(
    user_id: Seq<char>,
    normalized: Seq<char>,
    display: Seq<char>,
    now_ms: i64,
) -> Op {
    Op::insert("users"@)
        .text("user_id"@, user_id)
        .text("username_normalized"@, normalized)
        .text("username_display"@, display)
        .integer("created_at_ms"@, now_ms as int)
}

/// The statement that stores a user.
pub fn insert_user(user_id: &str, normalized: &str, display: &str, now_ms: i64) -> (statement:
    Statement)
    ensures
        statement@ == insert_user_op(user_id@, normalized@, display@, now_ms),
{
    Statement::insert("users")
        .text("user_id", user_id)
        .text("username_normalized", normalized)
        .text("username_display", display)
        .integer("created_at_ms", now_ms)
}

pub open spec fn insert_credential_op(user_id: Seq<char>, hash: Seq<char>, now_ms: i64) -> Op {
    Op::insert("password_credentials"@)
        .text("user_id"@, user_id)
        .text("password_hash"@, hash)
        .integer("updated_at_ms"@, now_ms as int)
}

/// Store a new account in one transaction.
pub open spec fn store_account_run(
    trace: Trace,
    user_id: Seq<char>,
    normalized: Seq<char>,
    display: Seq<char>,
    hash: Seq<char>,
    now_ms: i64,
) -> Run<Seq<char>, AccountError> {
    script::perform(
        trace,
        Op::begin(),
        |trace: Trace|
            script::perform(
                trace,
                insert_user_op(user_id, normalized, display, now_ms),
                |trace: Trace|
                    script::perform(
                        trace,
                        insert_credential_op(user_id, hash, now_ms),
                        |trace: Trace|
                            script::perform(
                                trace,
                                Op::commit(),
                                |trace: Trace| script::done(trace, user_id),
                            ),
                    ),
            ),
    )
}

/// Hash a password that is long enough.
pub open spec fn hash_run<T>(
    trace: Trace,
    password: Seq<char>,
    rest: spec_fn(Seq<char>, Trace) -> Run<T, AccountError>,
) -> Run<T, AccountError> {
    if byte_len(password) < 12 {
        script::fail(trace, AccountError::WeakPassword)
    } else {
        script::consult(
            trace,
            Ask::HashPassword(password),
            |reply: Reply| script::reply_text(reply),
            |hash: Result<Seq<char>, String>, trace: Trace|
                match hash {
                    Err(_) => script::fail(trace, AccountError::PasswordHash),
                    Ok(hash) => rest(hash, trace),
                },
        )
    }
}

fn fresh_hash<'a>(script: &mut Script<'a>, password: &str) -> (hash: Result<
    &'a String,
    Stop<'a, AccountError>,
>)
    ensures
        script::ran(hash, final(script)@, |hash: &'a String| hash@) == hash_run(
            old(script)@,
            password@,
            |hash: Seq<char>, trace: Trace| script::done(trace, hash),
        ),
{
    if password.as_bytes().len() < 12 {
        return Err(Stop::Fail(AccountError::WeakPassword));
    }
    match script.text(Request::HashPassword(password.to_owned()))? {
        Ok(hash) => Ok(hash),
        Err(_) => Err(Stop::Fail(AccountError::PasswordHash)),
    }
}

/// Register an account under a name that nobody has.
pub open spec fn register_run(
    trace: Trace,
    username: Seq<char>,
    password: Seq<char>,
    now: Timestamp,
) -> Run<Seq<char>, AccountError> {
    match normalized_username(username) {
        None => script::fail(trace, AccountError::InvalidUsername),
        Some(normalized) => script::query(
            trace,
            Op::select("users"@).where_text("username_normalized"@, normalized),
            |taken: Seq<Row>, trace: Trace|
                if taken.len() > 0 {
                    script::fail(trace, AccountError::UsernameTaken)
                } else {
                    script::draw(
                        trace,
                        1,
                        |drawn: Seq<u128>, trace: Trace|
                            hash_run(
                                trace,
                                password,
                                |hash: Seq<char>, trace: Trace|
                                    match game::millis_at(now) {
                                        None => script::fail(trace, AccountError::InvalidTimestamp),
                                        Some(now_ms) => store_account_run(
                                            trace,
                                            ids::id_text_of(drawn[0]),
                                            normalized,
                                            text::trimmed(username),
                                            hash,
                                            now_ms,
                                        ),
                                    },
                            ),
                    )
                },
        ),
    }
}

/// Registers a unique account and returns its identity.
pub fn register<'a>(
    script: &mut Script<'a>,
    username: &str,
    password: &str,
    now: Timestamp,
) -> (registered: Result<String, Stop<'a, AccountError>>)
    ensures
        script::ran(registered, final(script)@, |user: String| user@) == register_run(
            old(script)@,
            username@,
            password@,
            now,
        ),
{
    let normalized = match normalize_username(username) {
        Ok(normalized) => normalized,
        Err(error) => return Err(Stop::Fail(error)),
    };
    let taken = script.query(
        Statement::select("users").where_text("username_normalized", normalized.as_str()),
    )?;
    if taken.len() > 0 {
        return Err(Stop::Fail(AccountError::UsernameTaken));
    }
    let user_id: String = id_text(script.draw(1)?[0]);
    let hash = fresh_hash(script, password)?;
    let now_ms: i64 = match timestamp_ms(now) {
        Some(now_ms) => now_ms,
        None => return Err(Stop::Fail(AccountError::InvalidTimestamp)),
    };
    script.perform(Statement::begin())?;
    script.perform(
        insert_user(user_id.as_str(), normalized.as_str(), trim(username).as_str(), now_ms),
    )?;
    script.perform(
        Statement::insert("password_credentials")
            .text("user_id", user_id.as_str())
            .text("password_hash", hash.as_str())
            .integer("updated_at_ms", now_ms),
    )?;
    script.perform(Statement::commit())?;
    Ok(user_id)
}

pub open spec fn upgrade_hash_op(user_id: Seq<char>, hash: Seq<char>) -> Op {
    Op::update("password_credentials"@).text("password_hash"@, hash).where_text(
        "user_id"@,
        user_id,
    )
}

/// Check a password against the stored hash of a user; a hash of an old profile is replaced.
pub open spec fn check_credential_run(
    trace: Trace,
    user_id: Seq<char>,
    stored: Seq<char>,
    password: Seq<char>,
) -> Run<Seq<char>, AccountError> {
    match password_check(password, stored) {
        None => script::fail(trace, AccountError::PasswordHash),
        Some(matching) => if !matching {
            script::fail(trace, AccountError::InvalidCredentials)
        } else if needs_upgrade(stored) {
            hash_run(
                trace,
                password,
                |hash: Seq<char>, trace: Trace|
                    script::perform(
                        trace,
                        upgrade_hash_op(user_id, hash),
                        |trace: Trace| script::done(trace, user_id),
                    ),
            )
        } else {
            script::done(trace, user_id)
        },
    }
}

/// Authenticate a username and password. A name that cannot be one, an unknown user and a wrong
/// password look the same.
pub open spec fn authenticate_run(trace: Trace, username: Seq<char>, password: Seq<char>) -> Run<
    Seq<char>,
    AccountError,
> {
    match normalized_username(username) {
        None => script::fail(trace, AccountError::InvalidCredentials),
        Some(normalized) => script::query(
            trace,
            Op::select("users"@).where_text("username_normalized"@, normalized),
            |users: Seq<Row>, trace: Trace|
                match store::first_text_of(users, "user_id"@) {
                    None => script::fail(trace, AccountError::InvalidCredentials),
                    Some(user_id) => script::query(
                        trace,
                        Op::select("password_credentials"@).where_text("user_id"@, user_id),
                        |credentials: Seq<Row>, trace: Trace|
                            match store::first_text_of(credentials, "password_hash"@) {
                                None => script::fail(trace, AccountError::InvalidCredentials),
                                Some(stored) => check_credential_run(
                                    trace,
                                    user_id,
                                    stored,
                                    password,
                                ),
                            },
                    ),
                },
        ),
    }
}

/// Authenticates a username and password and returns the user's identity.
pub fn authenticate<'a>(script: &mut Script<'a>, username: &str, password: &str) -> (
    authenticated: Result<String, Stop<'a, AccountError>>)
    ensures
        script::ran(authenticated, final(script)@, |user: String| user@) == authenticate_run(
            old(script)@,
            username@,
            password@,
        ),
{
    let normalized = match normalize_username(username) {
        Ok(normalized) => normalized,
        Err(_) => return Err(Stop::Fail(AccountError::InvalidCredentials)),
    };
    let users = script.query(
        Statement::select("users").where_text("username_normalized", normalized.as_str()),
    )?;
    let user_id = match first_text(users, "user_id") {
        Some(user_id) => user_id,
        None => return Err(Stop::Fail(AccountError::InvalidCredentials)),
    };
    let credentials = script.query(
        Statement::select("password_credentials").where_text("user_id", user_id.as_str()),
    )?;
    let stored = match first_text(credentials, "password_hash") {
        Some(stored) => stored,
        None => return Err(Stop::Fail(AccountError::InvalidCredentials)),
    };
    match verify_password(password, stored.as_str()) {
        Err(error) => return Err(Stop::Fail(error)),
        Ok(matching) => if !matching {
            return Err(Stop::Fail(AccountError::InvalidCredentials));
        },
    }
    if password_needs_upgrade(stored.as_str()) {
        let upgraded = fresh_hash(script, password)?;
        script.perform(
            Statement::update("password_credentials").text(
                "password_hash",
                upgraded.as_str(),
            ).where_text("user_id", user_id.as_str()),
        )?;
    }
    Ok(user_id)
}

} // verus!
