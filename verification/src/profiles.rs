//! Public account profiles, generated handles, and avatars.
use crate::accounts;
use crate::avatars::{self, decode_base64, encode_base64, ImageView, ProfileImage};
use crate::crypto::{self, hex};
use crate::game::{self, timestamp_ms, Timestamp};
use crate::script::{self, Run, Script, Stop, Trace};
use crate::store::{self, Datum, Op, Row, Statement, Value};
use crate::text::{self, characters, has_control, lower, same_text, squeeze, text_of};
use vstd::prelude::*;

verus! {

/// Profile failure.
#[derive(Debug, Clone, PartialEq, Eq)]
pub enum ProfileError {
    InvalidDisplayName,
    InvalidImageUrl,
    InvalidImage,
    /// The transport failed.
    Http(String),
    HandleCollision,
    Malformed,
    Timestamp,
}

impl ProfileError {
    pub fn copied(&self) -> (copy: ProfileError)
        ensures
            copy == *self,
    {
        match self {
            ProfileError::InvalidDisplayName => ProfileError::InvalidDisplayName,
            ProfileError::InvalidImageUrl => ProfileError::InvalidImageUrl,
            ProfileError::InvalidImage => ProfileError::InvalidImage,
            ProfileError::Http(reason) => ProfileError::Http(reason.clone()),
            ProfileError::HandleCollision => ProfileError::HandleCollision,
            ProfileError::Malformed => ProfileError::Malformed,
            ProfileError::Timestamp => ProfileError::Timestamp,
        }
    }

    /// The error in words; an outside error is told in its own.
    pub open spec fn message_of(self) -> Seq<char> {
        match self {
            ProfileError::InvalidDisplayName => "display name is invalid"@,
            ProfileError::InvalidImageUrl => "profile image URL is not an allowed HTTPS Google avatar URL"@,
            ProfileError::InvalidImage => "profile image is invalid or exceeds safety limits"@,
            ProfileError::Http(reason) => reason@,
            ProfileError::HandleCollision => "could not generate a collision-free challenge handle"@,
            ProfileError::Malformed => "profile row is malformed"@,
            ProfileError::Timestamp => "profile timestamp is outside the supported range"@,
        }
    }

    pub fn message(self) -> (message: String)
        ensures
            message@ == self.message_of(),
    {
        match self {
            ProfileError::InvalidDisplayName => "display name is invalid".to_owned(),
            ProfileError::InvalidImageUrl => "profile image URL is not an allowed HTTPS Google avatar URL".to_owned(),
            ProfileError::InvalidImage => "profile image is invalid or exceeds safety limits".to_owned(),
            ProfileError::Http(reason) => reason,
            ProfileError::HandleCollision => "could not generate a collision-free challenge handle".to_owned(),
            ProfileError::Malformed => "profile row is malformed".to_owned(),
            ProfileError::Timestamp => "profile timestamp is outside the supported range".to_owned(),
        }
    }
}

/// The side of an avatar.
pub const AVATAR_SIZE: u32 = 128;

/// The most bytes of an avatar that are read.
pub const MAX_AVATAR_INPUT_BYTES: usize = 2_097_152;

/// The most pixels that a source image may have.
pub const MAX_AVATAR_PIXELS: u64 = 16_000_000;

/// Who owns a synchronized profile field.
#[derive(Debug, Clone, Copy, PartialEq, Eq, Structural)]
pub enum ProfileFieldSource {
    Google,
    Custom,
}

impl ProfileFieldSource {
    pub open spec fn name(self) -> Seq<char> {
        match self {
            ProfileFieldSource::Google => "GOOGLE"@,
            ProfileFieldSource::Custom => "CUSTOM"@,
        }
    }

    pub fn as_str(self) -> (name: &'static str)
        ensures
            name@ == self.name(),
    {
        match self {
            ProfileFieldSource::Google => "GOOGLE",
            ProfileFieldSource::Custom => "CUSTOM",
        }
    }

    pub open spec fn named(name: Seq<char>) -> Option<ProfileFieldSource> {
        if name == "GOOGLE"@ {
            Some(ProfileFieldSource::Google)
        } else if name == "CUSTOM"@ {
            Some(ProfileFieldSource::Custom)
        } else {
            None
        }
    }

    fn read(name: &str) -> (source: Option<ProfileFieldSource>)
        ensures
            source == ProfileFieldSource::named(name@),
    {
        if same_text(name, "GOOGLE") {
            Some(ProfileFieldSource::Google)
        } else if same_text(name, "CUSTOM") {
            Some(ProfileFieldSource::Custom)
        } else {
            None
        }
    }
}

/// Who owns the avatar.
#[derive(Debug, Clone, Copy, PartialEq, Eq, Structural)]
pub enum AvatarSource {
    Google,
    Custom,
    CustomNone,
}

impl AvatarSource {
    pub open spec fn name(self) -> Seq<char> {
        match self {
            AvatarSource::Google => "GOOGLE"@,
            AvatarSource::Custom => "CUSTOM"@,
            AvatarSource::CustomNone => "CUSTOM_NONE"@,
        }
    }

    pub fn as_str(self) -> (name: &'static str)
        ensures
            name@ == self.name(),
    {
        match self {
            AvatarSource::Google => "GOOGLE",
            AvatarSource::Custom => "CUSTOM",
            AvatarSource::CustomNone => "CUSTOM_NONE",
        }
    }

    pub open spec fn named(name: Seq<char>) -> Option<AvatarSource> {
        if name == "GOOGLE"@ {
            Some(AvatarSource::Google)
        } else if name == "CUSTOM"@ {
            Some(AvatarSource::Custom)
        } else if name == "CUSTOM_NONE"@ {
            Some(AvatarSource::CustomNone)
        } else {
            None
        }
    }

    fn read(name: &str) -> (source: Option<AvatarSource>)
        ensures
            source == AvatarSource::named(name@),
    {
        if same_text(name, "GOOGLE") {
            Some(AvatarSource::Google)
        } else if same_text(name, "CUSTOM") {
            Some(AvatarSource::Custom)
        } else if same_text(name, "CUSTOM_NONE") {
            Some(AvatarSource::CustomNone)
        } else {
            None
        }
    }
}

/// Reading a source's name gives the source back.
pub proof fn source_names_round_trip(field: ProfileFieldSource, avatar: AvatarSource)
    ensures
        ProfileFieldSource::named(field.name()) == Some(field),
        AvatarSource::named(avatar.name()) == Some(avatar),
{
    reveal_strlit("GOOGLE");
    reveal_strlit("CUSTOM");
    reveal_strlit("CUSTOM_NONE");
    assert("GOOGLE"@[0] == 'G');
    assert("CUSTOM"@[0] == 'C');
    assert("CUSTOM_NONE"@[0] == 'C');
    assert("CUSTOM"@.len() == 6);
    assert("CUSTOM_NONE"@.len() == 11);
}

/// A public profile.
#[derive(Debug, Clone, PartialEq, Eq)]
pub struct UserProfile {
    pub user_id: String,
    pub display_name: String,
    pub display_name_source: ProfileFieldSource,
    pub avatar_source: AvatarSource,
    pub provider_picture_url: Option<String>,
}

/// The mathematical content of a [`UserProfile`].
#[verifier::ext_equal]
pub struct ProfileView {
    pub user_id: Seq<char>,
    pub display_name: Seq<char>,
    pub display_name_source: ProfileFieldSource,
    pub avatar_source: AvatarSource,
    pub provider_picture_url: Option<Seq<char>>,
}

impl View for UserProfile {
    type V = ProfileView;

    open spec fn view(&self) -> ProfileView {
        ProfileView {
            user_id: self.user_id@,
            display_name: self.display_name@,
            display_name_source: self.display_name_source,
            avatar_source: self.avatar_source,
            provider_picture_url: text::opt_view(self.provider_picture_url),
        }
    }
}

/// The normalized form of a display name: its words with single spaces, at most eighty characters,
/// without control codes. A blank name becomes `Player`.
pub open spec fn normalized_display_name(name: Seq<char>) -> Option<Seq<char>> {
    let shown = if text::squeezed(name).len() == 0 {
        "Player"@
    } else {
        text::squeezed(name)
    };
    if text::holds_control(name) || shown.len() > 80 {
        None
    } else {
        Some(shown)
    }
}

/// Normalizes a display name from a provider or a user.
pub fn normalize_display_name(value: &str) -> (normalized: Result<String, ProfileError>)
    ensures
        match normalized {
            Ok(name) => normalized_display_name(value@) == Some(name@),
            Err(error) => error == ProfileError::InvalidDisplayName && normalized_display_name(
                value@,
            ) is None,
        },
{
    if has_control(value) {
        return Err(ProfileError::InvalidDisplayName);
    }
    let mut shown = squeeze(value);
    if shown.as_str().unicode_len() == 0 {
        shown = "Player".to_owned();
    }
    if shown.as_str().unicode_len() > 80 {
        return Err(ProfileError::InvalidDisplayName);
    }
    Ok(shown)
}

/// A normalized display name is its own normalized form.
pub proof fn normalizing_display_names_is_idempotent(name: Seq<char>)
    requires
        normalized_display_name(name) is Some,
    ensures
        normalized_display_name(normalized_display_name(name)->0) == normalized_display_name(name),
{
    let shown = normalized_display_name(name)->0;
    if text::squeezed(name).len() == 0 {
        reveal_strlit("Player");
        assert(shown.len() == 6);
        assert(text::is_tidy(shown)) by {
            assert forall|i: int| 0 <= i < shown.len() implies !text::is_space(
                #[trigger] shown[i],
            ) by {}
        }
        text::tidy_stays(shown);
        assert(!text::holds_control(shown)) by {
            assert forall|i: int| 0 <= i < shown.len() implies !text::is_control(
                #[trigger] shown[i],
            ) by {}
        }
    } else {
        text::squeezing_is_idempotent(name);
        squeezed_adds_no_control(name);
    }
}

proof fn squeezed_adds_no_control(name: Seq<char>)
    requires
        !text::holds_control(name),
    ensures
        !text::holds_control(text::squeezed(name)),
    decreases name.len(),
{
    if name.len() > 0 {
        let start = name.drop_last();
        assert(!text::holds_control(start)) by {
            assert forall|i: int| 0 <= i < start.len() implies !text::is_control(
                #[trigger] start[i],
            ) by {
                assert(start[i] == name[i]);
            }
        }
        squeezed_adds_no_control(start);
        assert(!text::is_control(name[name.len() - 1]));
        assert forall|i: int| 0 <= i < text::squeezed(name).len() implies !text::is_control(
            #[trigger] text::squeezed(name)[i],
        ) by {
            let before = text::squeezed(start);
            if i < before.len() {
                assert(text::squeezed(name)[i] == before[i]);
            }
        }
    }
}

/// What a character of a display name contributes to a handle.
pub open spec fn slug_char(character: char) -> Option<char> {
    if 'a' <= character <= 'z' || 'A' <= character <= 'Z' || '0' <= character <= '9' {
        Some(text::lower_char(character))
    } else if character == ' ' || character == '_' || character == '-' {
        Some('-')
    } else {
        None
    }
}

/// The letters, digits and single hyphens of a display name.
pub open spec fn slug_body(name: Seq<char>) -> Seq<char>
    decreases name.len(),
{
    if name.len() == 0 {
        Seq::empty()
    } else {
        let before = slug_body(name.drop_last());
        match slug_char(name.last()) {
            None => before,
            Some(character) => if character == '-' && before.len() > 0 && before.last() == '-' {
                before
            } else {
                before.push(character)
            },
        }
    }
}

/// A text without a hyphen at its beginning.
pub open spec fn without_first_hyphen(body: Seq<char>) -> Seq<char>
    decreases body.len(),
{
    if body.len() > 0 && body[0] == '-' {
        without_first_hyphen(body.skip(1))
    } else {
        body
    }
}

/// The readable part of a handle: at least three characters or `player`, at most 23.
pub open spec fn handle_slug(name: Seq<char>) -> Seq<char> {
    let body = text::without_end(without_first_hyphen(slug_body(name)), '-');
    let slug = if body.len() < 3 {
        "player"@
    } else {
        body
    };
    if slug.len() <= 23 {
        slug
    } else {
        slug.take(23)
    }
}

/// The handle made of a display name and four random bytes.
pub open spec fn handle_of(name: Seq<char>, suffix: Seq<u8>) -> Seq<char> {
    handle_slug(name).push('-') + crypto::hex_of(suffix)
}

fn slug(name: &str) -> (found: Vec<char>)
    ensures
        found@ == handle_slug(name@),
{
    let letters = characters(name);
    let mut body: Vec<char> = Vec::new();
    let mut at: usize = 0;
    assert(body@ =~= slug_body(name@.take(0)));
    while at < letters.len()
        invariant
            letters@ == name@,
            at <= name@.len(),
            body@ == slug_body(name@.take(at as int)),
        decreases name@.len() - at,
    {
        assert(name@.take(at + 1).drop_last() =~= name@.take(at as int));
        assert(name@.take(at + 1).last() == name@[at as int]);
        let letter: char = letters[at];
        if ('a' <= letter && letter <= 'z') || ('A' <= letter && letter <= 'Z') || ('0' <= letter
            && letter <= '9') {
            let small: char = lower(letter);
            assert(small != '-');
            body.push(small);
        } else if letter == ' ' || letter == '_' || letter == '-' {
            if body.len() == 0 || body[body.len() - 1] != '-' {
                body.push('-');
            }
        }
        at = at + 1;
    }
    assert(name@.take(at as int) =~= name@);
    let mut start: usize = 0;
    let ghost whole = body@;
    assert(whole.skip(0) =~= whole);
    while start < body.len() && body[start] == '-'
        invariant
            body@ == whole,
            start <= whole.len(),
            without_first_hyphen(whole) == without_first_hyphen(whole.skip(start as int)),
        decreases whole.len() - start,
    {
        assert(whole.skip(start as int).skip(1) =~= whole.skip(start + 1));
        start = start + 1;
    }
    let mut kept: Vec<char> = body.split_off(start);
    assert(kept@ =~= whole.skip(start as int));
    assert(kept@ == without_first_hyphen(whole));
    while kept.len() > 0 && kept[kept.len() - 1] == '-'
        invariant
            text::without_end(kept@, '-') == text::without_end(without_first_hyphen(whole), '-'),
        decreases kept@.len(),
    {
        let ghost before = kept@;
        kept.pop();
        assert(kept@ =~= before.drop_last());
    }
    if kept.len() < 3 {
        kept = characters("player");
    }
    if kept.len() > 23 {
        let ghost before = kept@;
        kept.truncate(23);
        assert(kept@ =~= before.take(23));
    }
    kept
}

/// The handle made of a display name and random bytes.
pub fn make_handle(display_name: &str, suffix: &[u8]) -> (handle: String)
    ensures
        handle@ == handle_of(display_name@, suffix@),
{
    let mut slug = slug(display_name);
    slug.push('-');
    text_of(&slug).concat(hex(suffix).as_str())
}

/// Try fresh suffixes until a handle is unused.
pub open spec fn try_handle_run(trace: Trace, name: Seq<char>, attempts: int) -> Run<
    Seq<char>,
    ProfileError,
>
    decreases attempts,
{
    if attempts <= 0 {
        script::fail(trace, ProfileError::HandleCollision)
    } else {
        script::draw_bytes(
            trace,
            4,
            |suffix: Seq<u8>, trace: Trace|
                script::query(
                    trace,
                    Op::select("users"@).where_text(
                        "username_normalized"@,
                        handle_of(name, suffix),
                    ),
                    |used: Seq<Row>, trace: Trace|
                        if used.len() == 0 {
                            script::done(trace, handle_of(name, suffix))
                        } else {
                            try_handle_run(trace, name, attempts - 1)
                        },
                ),
        )
    }
}

/// Creates a unique stable handle from a display name.
pub fn generate_unique_handle<'a>(script: &mut Script<'a>, display_name: &str) -> (generated: Result<
    String,
    Stop<'a, ProfileError>,
>)
    ensures
        script::ran(generated, final(script)@, |handle: String| handle@) == try_handle_run(
            old(script)@,
            display_name@,
            8,
        ),
{
    let mut attempts: u8 = 8;
    while attempts > 0
        invariant
            try_handle_run(old(script)@, display_name@, 8) == try_handle_run(
                script@,
                display_name@,
                attempts as int,
            ),
        decreases attempts,
    {
        let suffix = script.draw_bytes(4)?;
        let handle = make_handle(display_name, suffix.as_slice());
        let used = script.query(
            Statement::select("users").where_text("username_normalized", handle.as_str()),
        )?;
        if used.len() == 0 {
            return Ok(handle);
        }
        attempts = attempts - 1;
    }
    Err(Stop::Fail(ProfileError::HandleCollision))
}

/// Whether a character may stand in a handle.
pub open spec fn handle_char(character: char) -> bool {
    'a' <= character <= 'z' || '0' <= character <= '9' || character == '-'
}

/// Whether a text holds only characters of handles.
pub open spec fn all_handle_chars(body: Seq<char>) -> bool {
    forall|i: int| 0 <= i < body.len() ==> handle_char(#[trigger] body[i])
}

proof fn slug_body_chars(name: Seq<char>)
    ensures
        all_handle_chars(slug_body(name)),
    decreases name.len(),
{
    if name.len() > 0 {
        slug_body_chars(name.drop_last());
        let before = slug_body(name.drop_last());
        if let Some(character) = slug_char(name.last()) {
            assert(handle_char(character));
            assert(all_handle_chars(before.push(character)));
        }
    }
}

proof fn strip_keeps_chars(body: Seq<char>)
    requires
        all_handle_chars(body),
    ensures
        all_handle_chars(without_first_hyphen(body)),
    decreases body.len(),
{
    if body.len() > 0 && body[0] == '-' {
        assert(all_handle_chars(body.skip(1)));
        strip_keeps_chars(body.skip(1));
    }
}

proof fn strip_end_keeps_chars(body: Seq<char>)
    requires
        all_handle_chars(body),
    ensures
        all_handle_chars(text::without_end(body, '-')),
    decreases body.len(),
{
    if body.len() > 0 && body.last() == '-' {
        assert(all_handle_chars(body.drop_last()));
        strip_end_keeps_chars(body.drop_last());
    }
}

/// Every generated handle is a valid username that is already normalized, whatever the display
/// name and the random bytes.
pub proof fn handles_are_normalized_usernames(name: Seq<char>, suffix: Seq<u8>)
    requires
        suffix.len() == 4,
    ensures
        accounts::valid_username(handle_of(name, suffix)),
        accounts::normalized_username(handle_of(name, suffix)) == Some(handle_of(name, suffix)),
{
    let handle = handle_of(name, suffix);
    let slug = handle_slug(name);
    slug_body_chars(name);
    strip_keeps_chars(slug_body(name));
    strip_end_keeps_chars(without_first_hyphen(slug_body(name)));
    reveal_strlit("player");
    assert("player"@.len() == 6);
    assert(3 <= slug.len() <= 23);
    assert(all_handle_chars("player"@));
    assert(all_handle_chars(slug));
    assert forall|i: int| 0 <= i < handle.len() implies handle_char(#[trigger] handle[i]) by {
        if i < slug.len() {
            assert(handle[i] == slug[i]);
        } else if i > slug.len() {
            crypto::hex_is_lower_case(suffix, i - slug.len() - 1);
            assert(handle[i] == crypto::hex_of(suffix)[i - slug.len() - 1]);
        }
    }
    assert forall|i: int| 0 <= i < handle.len() implies accounts::username_char(
        #[trigger] handle[i],
    ) && text::lower_char(handle[i]) == handle[i] by {
        assert(handle_char(handle[i]));
    }
    accounts::lower_case_names_stay(handle);
}

/// The profile in one stored row.
pub open spec fn profile_row(row: Row) -> Option<ProfileView> {
    match (
        row.text_at("user_id"@),
        row.text_at("display_name"@),
        row.text_at("display_name_source"@),
        row.text_at("avatar_source"@),
    ) {
        (Some(user_id), Some(display_name), Some(field), Some(avatar)) => match (
            ProfileFieldSource::named(field),
            AvatarSource::named(avatar),
        ) {
            (Some(display_name_source), Some(avatar_source)) => Some(
                ProfileView {
                    user_id,
                    display_name,
                    display_name_source,
                    avatar_source,
                    provider_picture_url: row.text_at("provider_picture_url"@),
                },
            ),
            _ => None,
        },
        _ => None,
    }
}

fn read_profile(row: &Row) -> (profile: Option<UserProfile>)
    ensures
        match profile {
            Some(profile) => profile_row(*row) == Some(profile@),
            None => profile_row(*row) is None,
        },
{
    match (
        row.get_text("user_id"),
        row.get_text("display_name"),
        row.get_text("display_name_source"),
        row.get_text("avatar_source"),
    ) {
        (Some(user_id), Some(display_name), Some(field), Some(avatar)) => match (
            ProfileFieldSource::read(field.as_str()),
            AvatarSource::read(avatar.as_str()),
        ) {
            (Some(display_name_source), Some(avatar_source)) => Some(
                UserProfile {
                    user_id,
                    display_name,
                    display_name_source,
                    avatar_source,
                    provider_picture_url: row.get_text("provider_picture_url"),
                },
            ),
            _ => None,
        },
        _ => None,
    }
}

pub open spec fn opt_profile_view(profile: Option<UserProfile>) -> Option<ProfileView> {
    match profile {
        Some(profile) => Some(profile@),
        None => None,
    }
}

/// Load one profile.
pub open spec fn load_profile_run(trace: Trace, user_id: Seq<char>) -> Run<
    Option<ProfileView>,
    ProfileError,
> {
    script::query(
        trace,
        Op::select("user_profiles"@).where_text("user_id"@, user_id),
        |rows: Seq<Row>, trace: Trace|
            if rows.len() == 0 {
                script::done(trace, None)
            } else {
                match profile_row(rows[0]) {
                    Some(profile) => script::done(trace, Some(profile)),
                    None => script::fail(trace, ProfileError::Malformed),
                }
            },
    )
}

/// Loads one public profile.
pub fn load_profile<'a>(script: &mut Script<'a>, user_id: &str) -> (loaded: Result<
    Option<UserProfile>,
    Stop<'a, ProfileError>,
>)
    ensures
        script::ran(loaded, final(script)@, |profile: Option<UserProfile>| opt_profile_view(profile))
            == load_profile_run(old(script)@, user_id@),
{
    let rows = script.query(Statement::select("user_profiles").where_text("user_id", user_id))?;
    if rows.len() == 0 {
        return Ok(None);
    }
    match read_profile(&rows[0]) {
        Some(profile) => Ok(Some(profile)),
        None => Err(Stop::Fail(ProfileError::Malformed)),
    }
}

pub open spec fn insert_profile_op(
    user_id: Seq<char>,
    display_name: Seq<char>,
    picture: Option<Seq<char>>,
    now_ms: i64,
) -> Op {
    Op::insert("user_profiles"@)
        .text("user_id"@, user_id)
        .text("display_name"@, display_name)
        .text("display_name_source"@, ProfileFieldSource::Google.name())
        .text("avatar_source"@, AvatarSource::Google.name())
        .value("provider_picture_url"@, store::datum_of_option(picture))
        .value("provider_picture_checked_at_ms"@, Datum::Null)
        .integer("updated_at_ms"@, now_ms as int)
}

/// The statement that stores the initial Google-owned profile of a user.
pub fn insert_profile(
    user_id: &str,
    display_name: &str,
    provider_picture_url: &Option<String>,
    now_ms: i64,
) -> (statement: Statement)
    ensures
        statement@ == insert_profile_op(
            user_id@,
            display_name@,
            text::opt_view(*provider_picture_url),
            now_ms,
        ),
{
    Statement::insert("user_profiles")
        .text("user_id", user_id)
        .text("display_name", display_name)
        .text("display_name_source", ProfileFieldSource::Google.as_str())
        .text("avatar_source", AvatarSource::Google.as_str())
        .value("provider_picture_url", Value::optional_text(provider_picture_url))
        .value("provider_picture_checked_at_ms", Value::Null)
        .integer("updated_at_ms", now_ms)
}

/// Create the initial Google-owned profile of a user.
pub open spec fn create_profile_run(
    trace: Trace,
    user_id: Seq<char>,
    name: Seq<char>,
    picture: Option<Seq<char>>,
    now: Timestamp,
) -> Run<(), ProfileError> {
    match (normalized_display_name(name), game::millis_at(now)) {
        (None, _) => script::fail(trace, ProfileError::InvalidDisplayName),
        (_, None) => script::fail(trace, ProfileError::Timestamp),
        (Some(display_name), Some(now_ms)) => script::perform(
            trace,
            insert_profile_op(user_id, display_name, picture, now_ms),
            |trace: Trace| script::done(trace, ()),
        ),
    }
}

/// Creates the initial Google-owned profile of a user.
pub fn create_google_profile<'a>(
    script: &mut Script<'a>,
    user_id: &str,
    display_name: &str,
    provider_picture_url: &Option<String>,
    now: Timestamp,
) -> (created: Result<(), Stop<'a, ProfileError>>)
    ensures
        script::ran(created, final(script)@, |created: ()| created) == create_profile_run(
            old(script)@,
            user_id@,
            display_name@,
            text::opt_view(*provider_picture_url),
            now,
        ),
{
    let display_name = match normalize_display_name(display_name) {
        Ok(display_name) => display_name,
        Err(error) => return Err(Stop::Fail(error)),
    };
    let now_ms: i64 = match timestamp_ms(now) {
        Some(now_ms) => now_ms,
        None => return Err(Stop::Fail(ProfileError::Timestamp)),
    };
    script.perform(insert_profile(user_id, display_name.as_str(), provider_picture_url, now_ms))
}

/// The update that synchronizes what Google still owns of a profile.
pub open spec fn synchronize_op(
    profile: ProfileView,
    user_id: Seq<char>,
    display_name: Seq<char>,
    picture: Option<Seq<char>>,
    now_ms: i64,
) -> Op {
    let touched = Op::update("user_profiles"@).integer("updated_at_ms"@, now_ms as int);
    let named = if profile.display_name_source == ProfileFieldSource::Google {
        touched.text("display_name"@, display_name)
    } else {
        touched
    };
    let pictured = if profile.avatar_source == AvatarSource::Google {
        named.value("provider_picture_url"@, store::datum_of_option(picture))
    } else {
        named
    };
    pictured.where_text("user_id"@, user_id)
}

/// Synchronize the fields that Google owns.
pub open spec fn synchronize_run(
    trace: Trace,
    user_id: Seq<char>,
    name: Seq<char>,
    picture: Option<Seq<char>>,
    now: Timestamp,
) -> Run<(), ProfileError> {
    script::chain(
        load_profile_run(trace, user_id),
        |profile: Option<ProfileView>, trace: Trace|
            match (profile, game::millis_at(now)) {
                (None, _) => script::fail(trace, ProfileError::Malformed),
                (_, None) => script::fail(trace, ProfileError::Timestamp),
                (Some(profile), Some(now_ms)) => if profile.display_name_source
                    == ProfileFieldSource::Google && normalized_display_name(name) is None {
                    script::fail(trace, ProfileError::InvalidDisplayName)
                } else {
                    script::perform(
                        trace,
                        synchronize_op(
                            profile,
                            user_id,
                            normalized_display_name(name)->0,
                            picture,
                            now_ms,
                        ),
                        |trace: Trace| script::done(trace, ()),
                    )
                },
            },
    )
}

/// Whether a statement writes a column.
pub open spec fn writes(op: Op, column: Seq<char>) -> bool {
    exists|i: int| 0 <= i < op.values.len() && (#[trigger] op.values[i]).0 == column
}

/// Synchronizing never writes a field that the user has customized.
pub proof fn synchronizing_keeps_customization(
    profile: ProfileView,
    user_id: Seq<char>,
    display_name: Seq<char>,
    picture: Option<Seq<char>>,
    now_ms: i64,
)
    ensures
        ({
            let op = synchronize_op(profile, user_id, display_name, picture, now_ms);
            &&& profile.display_name_source == ProfileFieldSource::Custom ==> !writes(
                op,
                "display_name"@,
            )
            &&& profile.avatar_source != AvatarSource::Google ==> !writes(
                op,
                "provider_picture_url"@,
            )
            &&& !writes(op, "display_name_source"@)
            &&& !writes(op, "avatar_source"@)
        }),
{
    reveal_strlit("updated_at_ms");
    reveal_strlit("display_name");
    reveal_strlit("provider_picture_url");
    reveal_strlit("display_name_source");
    reveal_strlit("avatar_source");
    assert("updated_at_ms"@.len() == 13);
    assert("display_name"@.len() == 12);
    assert("provider_picture_url"@.len() == 20);
    assert("display_name_source"@.len() == 19);
    assert("avatar_source"@.len() == 13);
    assert("avatar_source"@[0] == 'a');
    assert("updated_at_ms"@[0] == 'u');
}

/// Synchronizes provider-owned fields without overwriting customization.
pub fn synchronize_google_profile<'a>(
    script: &mut Script<'a>,
    user_id: &str,
    display_name: &str,
    provider_picture_url: &Option<String>,
    now: Timestamp,
) -> (synchronized: Result<(), Stop<'a, ProfileError>>)
    ensures
        script::ran(synchronized, final(script)@, |synchronized: ()| synchronized)
            == synchronize_run(
            old(script)@,
            user_id@,
            display_name@,
            text::opt_view(*provider_picture_url),
            now,
        ),
{
    let profile = match load_profile(script, user_id)? {
        Some(profile) => profile,
        None => return Err(Stop::Fail(ProfileError::Malformed)),
    };
    let now_ms: i64 = match timestamp_ms(now) {
        Some(now_ms) => now_ms,
        None => return Err(Stop::Fail(ProfileError::Timestamp)),
    };
    let mut statement = Statement::update("user_profiles").integer("updated_at_ms", now_ms);
    if profile.display_name_source == ProfileFieldSource::Google {
        match normalize_display_name(display_name) {
            Ok(shown) => {
                statement = statement.text("display_name", shown.as_str());
            },
            Err(error) => return Err(Stop::Fail(error)),
        }
    }
    if profile.avatar_source == AvatarSource::Google {
        statement =
        statement.value("provider_picture_url", Value::optional_text(provider_picture_url));
    }
    script.perform(statement.where_text("user_id", user_id))
}

/// Make one change of a profile at a moment.
pub open spec fn change_profile_run(
    trace: Trace,
    changes: Op,
    user_id: Seq<char>,
    now: Timestamp,
) -> Run<(), ProfileError> {
    match game::millis_at(now) {
        None => script::fail(trace, ProfileError::Timestamp),
        Some(now_ms) => script::perform(
            trace,
            changes.integer("updated_at_ms"@, now_ms as int).where_text("user_id"@, user_id),
            |trace: Trace| script::done(trace, ()),
        ),
    }
}

fn change_profile<'a>(
    script: &mut Script<'a>,
    changes: Statement,
    user_id: &str,
    now: Timestamp,
) -> (changed: Result<(), Stop<'a, ProfileError>>)
    ensures
        script::ran(changed, final(script)@, |changed: ()| changed) == change_profile_run(
            old(script)@,
            changes@,
            user_id@,
            now,
        ),
{
    let now_ms: i64 = match timestamp_ms(now) {
        Some(now_ms) => now_ms,
        None => return Err(Stop::Fail(ProfileError::Timestamp)),
    };
    script.perform(changes.integer("updated_at_ms", now_ms).where_text("user_id", user_id))
}

/// Replace the display name by one of the user's own.
pub open spec fn rename_run(
    trace: Trace,
    user_id: Seq<char>,
    display_name: Seq<char>,
    now: Timestamp,
) -> Run<(), ProfileError> {
    match normalized_display_name(display_name) {
        None => script::fail(trace, ProfileError::InvalidDisplayName),
        Some(name) => change_profile_run(
            trace,
            Op::update("user_profiles"@).text("display_name"@, name).text(
                "display_name_source"@,
                ProfileFieldSource::Custom.name(),
            ),
            user_id,
            now,
        ),
    }
}

/// Let the display name follow the provider again.
pub open spec fn follow_name_run(trace: Trace, user_id: Seq<char>, now: Timestamp) -> Run<
    (),
    ProfileError,
> {
    change_profile_run(
        trace,
        Op::update("user_profiles"@).text(
            "display_name_source"@,
            ProfileFieldSource::Google.name(),
        ),
        user_id,
        now,
    )
}

/// Let the avatar follow the provider again.
pub open spec fn follow_avatar_run(trace: Trace, user_id: Seq<char>, now: Timestamp) -> Run<
    (),
    ProfileError,
> {
    change_profile_run(
        trace,
        Op::update("user_profiles"@).text("avatar_source"@, AvatarSource::Google.name()).value(
            "provider_picture_checked_at_ms"@,
            Datum::Null,
        ),
        user_id,
        now,
    )
}

/// Replaces the display name and opts out of provider synchronization.
pub fn set_custom_display_name<'a>(
    script: &mut Script<'a>,
    user_id: &str,
    display_name: &str,
    now: Timestamp,
) -> (changed: Result<(), Stop<'a, ProfileError>>)
    ensures
        script::ran(changed, final(script)@, |changed: ()| changed) == rename_run(
            old(script)@,
            user_id@,
            display_name@,
            now,
        ),
{
    let name = match normalize_display_name(display_name) {
        Ok(name) => name,
        Err(error) => return Err(Stop::Fail(error)),
    };
    change_profile(
        script,
        Statement::update("user_profiles").text("display_name", name.as_str()).text(
            "display_name_source",
            ProfileFieldSource::Custom.as_str(),
        ),
        user_id,
        now,
    )
}

/// Restores provider synchronization of the display name; the shown name stays until the next
/// verified login.
pub fn use_google_display_name<'a>(script: &mut Script<'a>, user_id: &str, now: Timestamp) -> (
    changed: Result<(), Stop<'a, ProfileError>>)
    ensures
        script::ran(changed, final(script)@, |changed: ()| changed) == follow_name_run(
            old(script)@,
            user_id@,
            now,
        ),
{
    change_profile(
        script,
        Statement::update("user_profiles").text(
            "display_name_source",
            ProfileFieldSource::Google.as_str(),
        ),
        user_id,
        now,
    )
}

/// Restores provider synchronization of the avatar; the stored image stays until a later verified
/// login.
pub fn use_google_avatar<'a>(script: &mut Script<'a>, user_id: &str, now: Timestamp) -> (changed:
    Result<(), Stop<'a, ProfileError>>)
    ensures
        script::ran(changed, final(script)@, |changed: ()| changed) == follow_avatar_run(
            old(script)@,
            user_id@,
            now,
        ),
{
    change_profile(
        script,
        Statement::update("user_profiles").text(
            "avatar_source",
            AvatarSource::Google.as_str(),
        ).value("provider_picture_checked_at_ms", Value::Null),
        user_id,
        now,
    )
}

/// Remove the avatar so that a provider login cannot restore it.
pub open spec fn remove_avatar_run(trace: Trace, user_id: Seq<char>, now: Timestamp) -> Run<
    (),
    ProfileError,
> {
    script::perform(
        trace,
        Op::begin(),
        |trace: Trace|
            script::perform(
                trace,
                Op::delete("user_profile_images"@).where_text("user_id"@, user_id),
                |trace: Trace|
                    script::chain(
                        change_profile_run(
                            trace,
                            Op::update("user_profiles"@).text(
                                "avatar_source"@,
                                AvatarSource::CustomNone.name(),
                            ),
                            user_id,
                            now,
                        ),
                        |changed: (), trace: Trace|
                            script::perform(
                                trace,
                                Op::commit(),
                                |trace: Trace| script::done(trace, ()),
                            ),
                    ),
            ),
    )
}

/// Marks the avatar intentionally absent.
pub fn remove_custom_avatar<'a>(script: &mut Script<'a>, user_id: &str, now: Timestamp) -> (removed:
    Result<(), Stop<'a, ProfileError>>)
    ensures
        script::ran(removed, final(script)@, |removed: ()| removed) == remove_avatar_run(
            old(script)@,
            user_id@,
            now,
        ),
{
    script.perform(Statement::begin())?;
    script.perform(Statement::delete("user_profile_images").where_text("user_id", user_id))?;
    change_profile(
        script,
        Statement::update("user_profiles").text(
            "avatar_source",
            AvatarSource::CustomNone.as_str(),
        ),
        user_id,
        now,
    )?;
    script.perform(Statement::commit())
}

pub open spec fn store_image_op(user_id: Seq<char>, image: ImageView, now_ms: i64) -> Op {
    Op::upsert("user_profile_images"@)
        .where_text("user_id"@, user_id)
        .text("user_id"@, user_id)
        .text("content_type"@, image.content_type)
        .text("content_base64"@, avatars::base64_of(image.bytes))
        .text("content_sha256"@, image.content_sha256)
        .integer("width"@, image.width as int)
        .integer("height"@, image.height as int)
        .integer("updated_at_ms"@, now_ms as int)
}

pub open spec fn own_avatar_op(user_id: Seq<char>, source: AvatarSource, now_ms: i64) -> Op {
    Op::update("user_profiles"@)
        .text("avatar_source"@, source.name())
        .integer("provider_picture_checked_at_ms"@, now_ms as int)
        .integer("updated_at_ms"@, now_ms as int)
        .where_text("user_id"@, user_id)
}

/// Store an image and its owner in one transaction.
pub open spec fn store_image_run(
    trace: Trace,
    user_id: Seq<char>,
    image: ImageView,
    source: AvatarSource,
    now: Timestamp,
) -> Run<(), ProfileError> {
    match game::millis_at(now) {
        None => script::fail(trace, ProfileError::Timestamp),
        Some(now_ms) => script::perform(
            trace,
            Op::begin(),
            |trace: Trace|
                script::perform(
                    trace,
                    store_image_op(user_id, image, now_ms),
                    |trace: Trace|
                        script::perform(
                            trace,
                            own_avatar_op(user_id, source, now_ms),
                            |trace: Trace|
                                script::perform(
                                    trace,
                                    Op::commit(),
                                    |trace: Trace| script::done(trace, ()),
                                ),
                        ),
                ),
        ),
    }
}

fn store_profile_image<'a>(
    script: &mut Script<'a>,
    user_id: &str,
    image: &ProfileImage,
    source: AvatarSource,
    now: Timestamp,
) -> (stored: Result<(), Stop<'a, ProfileError>>)
    requires
        image.bytes@.len() <= usize::MAX / 2,
    ensures
        script::ran(stored, final(script)@, |stored: ()| stored) == store_image_run(
            old(script)@,
            user_id@,
            image@,
            source,
            now,
        ),
{
    let now_ms: i64 = match timestamp_ms(now) {
        Some(now_ms) => now_ms,
        None => return Err(Stop::Fail(ProfileError::Timestamp)),
    };
    script.perform(Statement::begin())?;
    script.perform(
        Statement::upsert("user_profile_images")
            .where_text("user_id", user_id)
            .text("user_id", user_id)
            .text("content_type", image.content_type.as_str())
            .text("content_base64", encode_base64(image.bytes.as_slice()).as_str())
            .text("content_sha256", image.content_sha256.as_str())
            .integer("width", image.width as i64)
            .integer("height", image.height as i64)
            .integer("updated_at_ms", now_ms),
    )?;
    script.perform(
        Statement::update("user_profiles")
            .text("avatar_source", source.as_str())
            .integer("provider_picture_checked_at_ms", now_ms)
            .integer("updated_at_ms", now_ms)
            .where_text("user_id", user_id),
    )?;
    script.perform(Statement::commit())
}

/// What normalizing an uploaded picture gave, in views.
pub open spec fn normalized_view(normalized: Result<ProfileImage, ProfileError>) -> Result<
    ImageView,
    ProfileError,
> {
    match normalized {
        Ok(image) => Ok(image@),
        Err(error) => Err(error),
    }
}

/// Store a custom avatar and end with it.
pub open spec fn set_custom_avatar_run(
    trace: Trace,
    user_id: Seq<char>,
    normalized: Result<ImageView, ProfileError>,
    now: Timestamp,
) -> Run<ImageView, ProfileError> {
    match normalized {
        Err(error) => script::fail(trace, error),
        Ok(image) => script::reshape(
            store_image_run(trace, user_id, image, AvatarSource::Custom, now),
            |stored: ()| image,
        ),
    }
}

fn same_image(image: &ProfileImage) -> (copy: ProfileImage)
    ensures
        copy@ == image@,
{
    let copy = ProfileImage {
        content_type: image.content_type.clone(),
        bytes: image.bytes.clone(),
        content_sha256: image.content_sha256.clone(),
        width: image.width,
        height: image.height,
    };
    assert(copy.bytes@ =~= image.bytes@);
    copy
}

/// Whether an image's bytes can be written as text in this machine's memory.
pub open spec fn fits_memory(normalized: Result<ProfileImage, ProfileError>) -> bool {
    normalized matches Ok(image) ==> image.bytes@.len() <= usize::MAX / 2
}

/// Stores a custom avatar that [`avatars::normalize_avatar`] made, opts out of provider
/// synchronization, and returns the image that was stored.
pub fn set_custom_avatar<'a>(
    script: &mut Script<'a>,
    user_id: &str,
    normalized: &Result<ProfileImage, ProfileError>,
    now: Timestamp,
) -> (stored: Result<ProfileImage, Stop<'a, ProfileError>>)
    requires
        fits_memory(*normalized),
    ensures
        script::ran(stored, final(script)@, |image: ProfileImage| image@) == set_custom_avatar_run(
            old(script)@,
            user_id@,
            normalized_view(*normalized),
            now,
        ),
{
    match normalized {
        Ok(image) => {
            store_profile_image(script, user_id, image, AvatarSource::Custom, now)?;
            Ok(same_image(image))
        },
        Err(error) => Err(Stop::Fail(error.copied())),
    }
}

/// Store a provider avatar while Google owns the avatar, and end with it if it was stored.
pub open spec fn set_google_avatar_run(
    trace: Trace,
    user_id: Seq<char>,
    normalized: Result<ImageView, ProfileError>,
    now: Timestamp,
) -> Run<Option<ImageView>, ProfileError> {
    script::chain(
        load_profile_run(trace, user_id),
        |profile: Option<ProfileView>, trace: Trace|
            match profile {
                None => script::fail(trace, ProfileError::Malformed),
                Some(profile) => if profile.avatar_source != AvatarSource::Google {
                    script::done(trace, None)
                } else {
                    match normalized {
                        Err(error) => script::fail(trace, error),
                        Ok(image) => script::reshape(
                            store_image_run(trace, user_id, image, AvatarSource::Google, now),
                            |stored: ()| Some(image),
                        ),
                    }
                },
            },
    )
}

/// Stores a normalized provider avatar only while the avatar is Google-owned; returns the image
/// that was stored.
pub fn set_google_avatar<'a>(
    script: &mut Script<'a>,
    user_id: &str,
    normalized: &Result<ProfileImage, ProfileError>,
    now: Timestamp,
) -> (stored: Result<Option<ProfileImage>, Stop<'a, ProfileError>>)
    requires
        fits_memory(*normalized),
    ensures
        script::ran(
            stored,
            final(script)@,
            |image: Option<ProfileImage>| avatars::opt_image_view(image),
        ) == set_google_avatar_run(
            old(script)@,
            user_id@,
            normalized_view(*normalized),
            now,
        ),
{
    let profile = match load_profile(script, user_id)? {
        Some(profile) => profile,
        None => return Err(Stop::Fail(ProfileError::Malformed)),
    };
    if profile.avatar_source != AvatarSource::Google {
        return Ok(None);
    }
    match normalized {
        Ok(image) => {
            store_profile_image(script, user_id, image, AvatarSource::Google, now)?;
            Ok(Some(same_image(image)))
        },
        Err(error) => Err(Stop::Fail(error.copied())),
    }
}

/// Load the digest of the current avatar.
pub open spec fn image_hash_run(trace: Trace, user_id: Seq<char>) -> Run<
    Option<Seq<char>>,
    ProfileError,
> {
    script::query(
        trace,
        Op::select("user_profile_images"@).where_text("user_id"@, user_id),
        |rows: Seq<Row>, trace: Trace|
            if rows.len() == 0 {
                script::done(trace, None)
            } else {
                match rows[0].text_at("content_sha256"@) {
                    Some(hash) => script::done(trace, Some(hash)),
                    None => script::fail(trace, ProfileError::Malformed),
                }
            },
    )
}

/// Loads the digest of the current normalized avatar.
pub fn profile_image_hash<'a>(script: &mut Script<'a>, user_id: &str) -> (hash: Result<
    Option<String>,
    Stop<'a, ProfileError>,
>)
    ensures
        script::ran(hash, final(script)@, |hash: Option<String>| text::opt_view(hash))
            == image_hash_run(old(script)@, user_id@),
{
    let rows = script.query(
        Statement::select("user_profile_images").where_text("user_id", user_id),
    )?;
    if rows.len() == 0 {
        return Ok(None);
    }
    match rows[0].get_text("content_sha256") {
        Some(hash) => Ok(Some(hash)),
        None => Err(Stop::Fail(ProfileError::Malformed)),
    }
}

/// The image in one stored row.
pub open spec fn image_row(row: Row) -> Option<ImageView> {
    match (
        row.text_at("content_type"@),
        row.text_at("content_base64"@),
        row.integer_at("width"@),
        row.integer_at("height"@),
        row.text_at("content_sha256"@),
    ) {
        (Some(content_type), Some(encoded), Some(width), Some(height), Some(content_sha256)) => if
            content_type == "image/png"@ && avatars::base64_bytes(encoded) is Some && 0 <= width
            <= u32::MAX && 0 <= height <= u32::MAX {
            Some(
                ImageView {
                    content_type,
                    bytes: avatars::base64_bytes(encoded)->0,
                    content_sha256,
                    width: width as u32,
                    height: height as u32,
                },
            )
        } else {
            None
        },
        _ => None,
    }
}

fn read_image(row: &Row) -> (image: Option<ProfileImage>)
    ensures
        match image {
            Some(image) => image_row(*row) == Some(image@),
            None => image_row(*row) is None,
        },
{
    match (
        row.get_text("content_type"),
        row.get_text("content_base64"),
        row.get_integer("width"),
        row.get_integer("height"),
        row.get_text("content_sha256"),
    ) {
        (Some(content_type), Some(encoded), Some(width), Some(height), Some(content_sha256)) => {
            if !same_text(content_type.as_str(), "image/png") || width < 0 || width
                > u32::MAX as i64 || height < 0 || height > u32::MAX as i64 {
                return None;
            }
            match decode_base64(encoded.as_str()) {
                Some(bytes) => Some(
                    ProfileImage {
                        content_type,
                        bytes,
                        content_sha256,
                        width: width as u32,
                        height: height as u32,
                    },
                ),
                None => None,
            }
        },
        _ => None,
    }
}

/// Load the avatar whose digest is the expected one.
pub open spec fn load_image_run(trace: Trace, user_id: Seq<char>, hash: Seq<char>) -> Run<
    Option<ImageView>,
    ProfileError,
> {
    script::query(
        trace,
        Op::select("user_profile_images"@).where_text("user_id"@, user_id).where_text(
            "content_sha256"@,
            hash,
        ),
        |rows: Seq<Row>, trace: Trace|
            if rows.len() == 0 {
                script::done(trace, None)
            } else {
                match image_row(rows[0]) {
                    Some(image) => script::done(trace, Some(image)),
                    None => script::fail(trace, ProfileError::Malformed),
                }
            },
    )
}

/// Loads the normalized avatar when the requested digest is current.
pub fn load_profile_image<'a>(script: &mut Script<'a>, user_id: &str, expected_hash: &str) -> (
    loaded: Result<Option<ProfileImage>, Stop<'a, ProfileError>>)
    ensures
        script::ran(
            loaded,
            final(script)@,
            |image: Option<ProfileImage>|
                match image {
                    Some(image) => Some(image@),
                    None => None,
                },
        ) == load_image_run(old(script)@, user_id@, expected_hash@),
{
    let rows = script.query(
        Statement::select("user_profile_images").where_text("user_id", user_id).where_text(
            "content_sha256",
            expected_hash,
        ),
    )?;
    if rows.len() == 0 {
        return Ok(None);
    }
    match read_image(&rows[0]) {
        Some(image) => Ok(Some(image)),
        None => Err(Stop::Fail(ProfileError::Malformed)),
    }
}

/// Whether a list of memberships names a game.
pub open spec fn names_game(rows: Seq<Row>, game: Seq<char>) -> bool {
    exists|i: int| 0 <= i < rows.len() && (#[trigger] rows[i]).text_at("game_id"@) == Some(game)
}

/// Whether any membership names a game.
pub open spec fn names_a_game(rows: Seq<Row>) -> bool {
    exists|i: int| 0 <= i < rows.len() && (#[trigger] rows[i]).text_at("game_id"@) is Some
}

fn any_game(rows: &Vec<Row>) -> (found: bool)
    ensures
        found == names_a_game(rows@),
{
    let mut at: usize = 0;
    while at < rows.len()
        invariant
            at <= rows@.len(),
            forall|i: int| 0 <= i < at ==> (#[trigger] rows@[i]).text_at("game_id"@) is None,
        decreases rows@.len() - at,
    {
        if rows[at].get_text("game_id").is_some() {
            assert(rows@[at as int].text_at("game_id"@) is Some);
            return true;
        }
        at = at + 1;
    }
    false
}

fn any_of_game(rows: &Vec<Row>, game: &str) -> (found: bool)
    ensures
        found == names_game(rows@, game@),
{
    let mut at: usize = 0;
    while at < rows.len()
        invariant
            at <= rows@.len(),
            forall|i: int|
                0 <= i < at ==> (#[trigger] rows@[i]).text_at("game_id"@) != Some(game@),
        decreases rows@.len() - at,
    {
        if let Some(other) = rows[at].get_text("game_id") {
            if same_text(other.as_str(), game) {
                assert(rows@[at as int].text_at("game_id"@) == Some(game@));
                return true;
            }
        }
        assert(rows@[at as int].text_at("game_id"@) != Some(game@));
        at = at + 1;
    }
    false
}

pub open spec fn memberships_op(user_id: Seq<char>) -> Op {
    Op::select("game_players"@).where_text("user_id"@, user_id)
}

pub open spec fn pending_between_op(challenger: Seq<char>, challenged: Seq<char>) -> Op {
    Op::select("challenges"@)
        .where_text("challenger_user_id"@, challenger)
        .where_text("challenged_user_id"@, challenged)
        .where_text("status"@, "PENDING"@)
}

/// Whether a challenge between two users is pending in either direction.
pub open spec fn pending_either_way_run(
    trace: Trace,
    viewer: Seq<char>,
    profile: Seq<char>,
) -> Run<bool, ProfileError> {
    script::query(
        trace,
        pending_between_op(viewer, profile),
        |outgoing: Seq<Row>, trace: Trace|
            if outgoing.len() > 0 {
                script::done(trace, true)
            } else {
                script::query(
                    trace,
                    pending_between_op(profile, viewer),
                    |incoming: Seq<Row>, trace: Trace| script::done(trace, incoming.len() > 0),
                )
            },
    )
}

pub open spec fn active_game_op(game: Seq<char>) -> Op {
    Op::select("game_summaries"@).where_text("game_id"@, game).where_text("status"@, "ACTIVE"@)
}

/// Whether a game that both lists of memberships name, from `index` of the first on, is going on;
/// otherwise whether a challenge is pending.
pub open spec fn playing_run(
    trace: Trace,
    own: Seq<Row>,
    theirs: Seq<Row>,
    index: int,
    viewer: Seq<char>,
    profile: Seq<char>,
) -> Run<bool, ProfileError>
    decreases own.len() - index,
{
    if index >= own.len() {
        pending_either_way_run(trace, viewer, profile)
    } else {
        match own[index].text_at("game_id"@) {
            Some(game) if names_game(theirs, game) => script::query(
                trace,
                active_game_op(game),
                |active: Seq<Row>, trace: Trace|
                    if active.len() > 0 {
                        script::done(trace, true)
                    } else {
                        playing_run(trace, own, theirs, index + 1, viewer, profile)
                    },
            ),
            _ => playing_run(trace, own, theirs, index + 1, viewer, profile),
        }
    }
}

/// Whether a viewer may see a user's avatar: the user, a current game opponent, or either side of
/// a pending challenge.
pub open spec fn can_view_run(trace: Trace, viewer: Seq<char>, profile: Seq<char>) -> Run<
    bool,
    ProfileError,
> {
    if viewer == profile {
        script::done(trace, true)
    } else {
        script::query(
            trace,
            memberships_op(viewer),
            |own: Seq<Row>, trace: Trace|
                if names_a_game(own) {
                    script::query(
                        trace,
                        memberships_op(profile),
                        |theirs: Seq<Row>, trace: Trace|
                            playing_run(trace, own, theirs, 0, viewer, profile),
                    )
                } else {
                    pending_either_way_run(trace, viewer, profile)
                },
        )
    }
}

/// Determines whether a signed-in viewer may load another user's avatar.
///
/// Avatars are private: they are shown to the owner, to a current game opponent, and to either side
/// of a pending challenge. The answer is only a boolean, so that missing and forbidden images can
/// look the same.
pub fn can_view_profile_avatar<'a>(
    script: &mut Script<'a>,
    viewer_user_id: &str,
    profile_user_id: &str,
) -> (allowed: Result<bool, Stop<'a, ProfileError>>)
    ensures
        script::ran(allowed, final(script)@, |allowed: bool| allowed) == can_view_run(
            old(script)@,
            viewer_user_id@,
            profile_user_id@,
        ),
{
    if same_text(viewer_user_id, profile_user_id) {
        return Ok(true);
    }
    let own = script.query(
        Statement::select("game_players").where_text("user_id", viewer_user_id),
    )?;
    if any_game(own) {
        let theirs = script.query(
            Statement::select("game_players").where_text("user_id", profile_user_id),
        )?;
        let mut index: usize = 0;
        while index < own.len()
            invariant
                index <= own@.len(),
                can_view_run(old(script)@, viewer_user_id@, profile_user_id@) == playing_run(
                    script@,
                    own@,
                    theirs@,
                    index as int,
                    viewer_user_id@,
                    profile_user_id@,
                ),
            decreases own@.len() - index,
        {
            if let Some(game) = own[index].get_text("game_id") {
                if any_of_game(theirs, game.as_str()) {
                    let active = script.query(
                        Statement::select("game_summaries").where_text(
                            "game_id",
                            game.as_str(),
                        ).where_text("status", "ACTIVE"),
                    )?;
                    if active.len() > 0 {
                        return Ok(true);
                    }
                }
            }
            index = index + 1;
        }
    }
    let outgoing = script.query(
        Statement::select("challenges")
            .where_text("challenger_user_id", viewer_user_id)
            .where_text("challenged_user_id", profile_user_id)
            .where_text("status", "PENDING"),
    )?;
    if outgoing.len() > 0 {
        return Ok(true);
    }
    let incoming = script.query(
        Statement::select("challenges")
            .where_text("challenger_user_id", profile_user_id)
            .where_text("challenged_user_id", viewer_user_id)
            .where_text("status", "PENDING"),
    )?;
    Ok(incoming.len() > 0)
}

} // verus!
