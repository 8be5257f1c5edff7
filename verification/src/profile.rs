use vstd::prelude::*;
use crate::text::{decimal, decimal_string, trim, trimmed_chars, string_of, str_equal};

verus! {

/// Longest response body, in characters, kept in an error report.
pub const SNIPPET_MAX_CHARS: usize = 200;

/// A short, log-friendly form of a response body: trimmed, `<empty>` when
/// nothing is left, and cut after [`SNIPPET_MAX_CHARS`] characters with a
/// trailing ellipsis.
pub open spec fn snippet_of(body: Seq<char>) -> Seq<char> {
    let t = trim(body);
    if t.len() == 0 {
        "<empty>"@
    } else if t.len() > SNIPPET_MAX_CHARS {
        t.take(SNIPPET_MAX_CHARS as int).push('\u{2026}')
    } else {
        t
    }
}

/// Truncates a response body to a short snippet (see [`snippet_of`]).
pub fn snippet(body: &str) -> (out: String)
    ensures
        out@ == snippet_of(body@),
{
    let t = trimmed_chars(body);
    if t.len() == 0 {
        return "<empty>".to_string();
    }
    if t.len() > SNIPPET_MAX_CHARS {
        let mut cut: Vec<char> = Vec::new();
        let mut i: usize = 0;
        while i < SNIPPET_MAX_CHARS
            invariant
                i <= SNIPPET_MAX_CHARS < t.len(),
                cut@ == t@.take(i as int),
            decreases SNIPPET_MAX_CHARS - i,
        {
            cut.push(t[i]);
            assert(t@.take(i + 1) =~= t@.take(i as int).push(t@[i as int]));
            i = i + 1;
        }
        cut.push('\u{2026}');
        return string_of(&cut);
    }
    string_of(&t)
}

/// Why a lookup against the Mojang session service failed.
#[derive(Debug)]
pub enum ProfileError {
    Client(String),
    Request(String),
    Status { status: u16, body: String },
    Decode { error: String, body: String },
}

/// The human-readable text of a [`ProfileError`].
pub open spec fn profile_error_text(e: ProfileError) -> Seq<char> {
    match e {
        ProfileError::Client(m) => "could not build HTTP client: "@ + m@,
        ProfileError::Request(m) => "request failed: "@ + m@,
        ProfileError::Status { status, body } => "Mojang returned HTTP "@ + decimal(
            status as nat,
        ) + " (body: "@ + body@ + ")"@,
        ProfileError::Decode { error, body } => "could not decode Mojang response as JSON: "@
            + error@ + " (body: "@ + body@ + ")"@,
    }
}

impl ProfileError {
    /// The message describing this error.
    pub fn message(&self) -> (s: String)
        ensures
            s@ == profile_error_text(*self),
    {
        match self {
            ProfileError::Client(m) => "could not build HTTP client: ".to_string().concat(
                m.as_str(),
            ),
            ProfileError::Request(m) => "request failed: ".to_string().concat(m.as_str()),
            ProfileError::Status { status, body } => {
                let code = decimal_string(*status as u64);
                "Mojang returned HTTP ".to_string().concat(code.as_str()).concat(
                    " (body: ",
                ).concat(body.as_str()).concat(")")
            },
            ProfileError::Decode { error, body } => {
                "could not decode Mojang response as JSON: ".to_string().concat(
                    error.as_str(),
                ).concat(" (body: ").concat(body.as_str()).concat(")")
            },
        }
    }
}

/// One property of a Mojang profile.
#[derive(Debug, Clone)]
pub struct ProfileProperty {
    pub name: String,
    pub value: String,
    pub signature: Option<String>,
}

/// A Mojang profile: the list of its properties.
#[derive(Debug, Clone)]
pub struct Profile {
    pub properties: Vec<ProfileProperty>,
}

/// The first property named `textures`, if any.
pub open spec fn first_textures(ps: Seq<ProfileProperty>) -> Option<ProfileProperty>
    decreases ps.len(),
{
    if ps.len() == 0 {
        None
    } else if ps[0].name@ == "textures"@ {
        Some(ps[0])
    } else {
        first_textures(ps.drop_first())
    }
}

impl ProfileProperty {
    /// A copy of this property.
    pub fn duplicate(&self) -> (p: ProfileProperty)
        ensures
            p == *self,
    {
        ProfileProperty {
            name: self.name.clone(),
            value: self.value.clone(),
            signature: match &self.signature {
                Some(s) => Some(s.clone()),
                None => None,
            },
        }
    }
}

impl Profile {
    /// The profile's `textures` property, if it has one.
    pub fn try_get_textures(&self) -> (t: Option<ProfileProperty>)
        ensures
            t == first_textures(self.properties@),
    {
        let mut i: usize = 0;
        assert(self.properties@.skip(0) =~= self.properties@);
        while i < self.properties.len()
            invariant
                i <= self.properties.len(),
                first_textures(self.properties@) == first_textures(self.properties@.skip(i as int)),
            decreases self.properties.len() - i,
        {
            assert(self.properties@.skip(i as int).drop_first() =~= self.properties@.skip(i + 1));
            if str_equal(self.properties[i].name.as_str(), "textures") {
                return Some(self.properties[i].duplicate());
            }
            i = i + 1;
        }
        None
    }
}

/// Whether an HTTP status code reports success (the 2xx range).
pub open spec fn is_success(status: u16) -> bool {
    200 <= status && status <= 299
}

/// Checks a Mojang response before its body is decoded: a status outside
/// the 2xx range is reported with the code and a snippet of the body, so a
/// rate limit or challenge page is not mistaken for bad JSON.
pub fn check_response(status: u16, body: &str) -> (r: Result<(), ProfileError>)
    ensures
        is_success(status) ==> r is Ok,
        !is_success(status) ==> (r matches Err(ProfileError::Status { status: s, body: b }) && s == status
            && b@ == snippet_of(body@)),
{
    if 200 <= status && status <= 299 {
        Ok(())
    } else {
        Err(ProfileError::Status { status, body: snippet(body) })
    }
}

/// The error for a body that is no valid JSON of the expected shape.
pub fn decode_error(error: String, body: &str) -> (e: ProfileError)
    ensures
        e matches ProfileError::Decode { error: m, body: b } && m == error && b@ == snippet_of(body@),
{
    ProfileError::Decode { error, body: snippet(body) }
}

/// The textures of a player's profile, or the reason the player's skin
/// cannot be used.
pub fn player_textures(profile: &Profile, player: &str) -> (r: Result<ProfileProperty, String>)
    ensures
        match first_textures(profile.properties@) {
            Some(t) => r == Ok::<ProfileProperty, String>(t),
            None => r matches Err(m) && m@ == "player '"@ + player@ + "' has no textures"@,
        },
{
    match profile.try_get_textures() {
        Some(t) => Ok(t),
        None => Err("player '".to_string().concat(player).concat("' has no textures")),
    }
}

/// The reason a player name could not be resolved to a UUID.
pub fn unresolved_player_message(player: &str, error: &ProfileError) -> (m: String)
    ensures
        m@ == "could not resolve player '"@ + player@ + "': "@ + profile_error_text(*error),
{
    let text = error.message();
    "could not resolve player '".to_string().concat(player).concat("': ").concat(text.as_str())
}

} // verus!
